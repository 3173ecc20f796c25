# curves

Day counts, business-day calendars and the integer logic of interest rate curves,
verified with Verus.

- `src/date.rs`: dates of the proleptic Gregorian calendar held as day numbers; the
  correspondence between day numbers and (year, month, day) is proved one to one.
- `src/calendar.rs`: the holiday calendars of the `bdays` crate, called through trusted
  wrappers. A business-day count uses one of `WeekendsOnly`, `BRSettlement`,
  `BrazilExchange` and `USSettlement`; calendars written by users, `HolidayCalendarCache`
  and the German state calendars of `bdays` cannot be used.
- `src/daycount.rs`: Actual/360, Actual/365, 30/360 and business-days/252 counts, and year
  fractions.
- `src/rate.rs`: compounding conventions.
- `src/curve.rs`: curve methods, the checks that build a curve, the method for each maturity,
  and the vertices that step-function, linear and spline interpolation use.
- `app/`: rates, splines, curves and the interpolation formulas, all on floating-point
  values, built on the verified library.
