# bevyearth

The data side of a satellite-tracking globe viewer, verified with Verus.

The viewer follows satellites from their two-line element sets (TLEs),
overlays NOAA SWPC space-weather data (the OVATION aurora forecast, the Kp
index, solar-wind readings) and lists upcoming launches and events from
Launch Library 2.  This crate holds the logic behind that data, with
contracts proved by Verus:

- `tle` — cleaning Celestrak responses, pairing element lines, reading the
  epoch and turning it into an instant, picking the entry of a catalog
  number, the disk-cache bookkeeping (file names, freshness), the satellite
  records built from a fetched TLE (SGP4 models through the `sgp4` crate),
  and the store's display flags (the "All Tracks" and "All Trails" toggles,
  the clicked satellite).
- `space_weather` — reading feed documents as tables, finding columns by
  name, inferring OVATION columns from data, the latest readings and time
  tags, the OVATION grid (distinct sorted coordinates, the greatest value per
  cell, the grid spacing), the polling schedule and how answers update the
  shown data, and the forecast-age status.
- `launch_library` — reading launches and events from a response, the feed
  configuration and request addresses, the polling bookkeeping of the two
  feeds, and the launch pads to mark (launches grouped by pad).
- `panel` — the satellite panel: the catalog-number input, group requests,
  selection and tracking, "Clear All", the panel keys, and the satellite list.
- `json`, `text`, `time`, `floatbits` — the plain-value models the rest
  works on: decoded JSON with the number readings taken at decoding, texts as
  character sequences, UTC instants as seconds and nanoseconds, and `f32`
  values as IEEE-754 bit patterns.

`app/` is a console driver: it runs the fetch workers (tokio, reqwest),
decodes bodies with `serde_json`, reads and writes the TLE cache files, does
the floating-point conversions, and prints what the panels would show.

`tests/` runs the library on concrete documents and values.
