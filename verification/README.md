# homebuyer_sim

A buy-versus-rent Monte Carlo housing simulator, split in two.

`src/` is the verified library (Verus). It holds the whole-number and text
logic of the simulator, each function with a contract proved by Verus:

- `engine`: the seed of every simulation, when progress is reported, and the
  month-by-month timeline of a holding period (loan months, yearly increases);
- `aggregate`: which simulations are kept as sample trajectories, and the
  month axis of the percentile series;
- `histogram`: counting values into bins without losing any;
- `format`: decimal digits and thousands grouping of currency amounts;
- `csv`: the layout of the CSV export;
- `app_state`: the run status and how it reacts to the messages of a running
  simulation and to file operations;
- `parameters`, `theme`: distribution kinds, holding period, rate-parameter
  names, and the chart palette.

`app/` is a command-line program around the library. The mortgage and cost
model, sampling, statistics and number rounding are floating point, which
Verus does not verify here, so they live in `app/` together with the threads,
the files and the text report.
