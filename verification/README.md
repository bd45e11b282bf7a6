# solaredge_exporter

A Prometheus exporter for SolarEdge sites: power, voltage, current and energy
of every optimizer from the monitoring portal, and battery, meter and PV totals
from the public Monitoring API.

`src/` is the logic as a Verus library: functions with contracts that Verus
proves, and a few calls into other crates whose contracts it takes on trust.
`app/` is the program around it: arguments, environment,
files, HTTP, JSON and TOML, the text encoding of metrics, and logging. `tests/`
runs the library with the crates that it calls.

| Module | What it holds |
| --- | --- |
| `config`, `startup` | the configuration and the environment |
| `portal::models` | answers of the portal, and the list of optimizers |
| `portal::client` | requests to the portal, what answers come to, the token |
| `portal::cognito` | the login |
| `measurement`, `time` | times of measurement, instants, civil dates |
| `scrape` | a refresh from the portal, step by step |
| `monitoring_api::models`, `::client` | answers and requests of the Monitoring API, counters |
| `monitoring_api::state` | the file that keeps counters over a restart |
| `monitoring_api::scrape` | a refresh from the Monitoring API, step by step |
| `series`, `metrics` | the published series and samples |
| `server` | what the HTTP server answers |
| `reading`, `text`, `lists`, `serial_map` | measured values, text, sequences, maps |

Measured values are doubles held by their bit pattern. The library compares
them; where it needs a sum or has to read a number from text, its caller hands
it the function that does so.

What the library takes on trust from other crates stands in `time` (`jiff`),
`portal::cognito` (`aws-cognito-srp`, `reqwest`), `portal::client` and
`monitoring_api::state` (the standard library), each with a comment that says
what is claimed.

## What is proved

- A lifetime total is never lowered, and never replaced by what is no number,
  whatever values come (`metrics`, `scrape`, `monitoring_api::scrape`).
- A series is absent until it has a value; a value that did not come leaves its
  gauge as it was; one set of labels never moves another.
- A source counts as fresh exactly where it brought a value.
- Every optimizer of the layout is listed, however its nodes are grouped, and
  every value that was read of one is published, under its field or as
  `unassigned`.
- Both ways in which the portal writes a time of measurement come to the same
  instant in a time zone.
- Windows of storage data neither overlap nor leave a gap, unless the last one
  ended more than seven days ago; a restart resumes with the saved counters; published and saved counters stay the same as long as
  no battery changes its model.
