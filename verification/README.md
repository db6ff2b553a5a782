# portfolio_stats

Exercises on financial time series (returns, volatility, correlations) and on
estimators of location and scatter (sample mean, medians, James-Stein,
Ledoit-Wolf, single-factor and Student-t models).

- `src/` is the library, verified with Verus: the flat layout of the Student-t
  parameter vector and its length check, reading sample tables by column and
  as dense matrices, symmetric matrices from their upper triangle, the
  starting simplex of the Nelder-Mead fit, the random choice of distinct
  columns, the volatility column names and the HTML page that stacks plots.
- `app/` holds the exercises themselves: loading data, the floating-point
  estimators and the plots, calling the library for the logic above.
- `tests/` exercises the library on concrete values.
