# calendar

The core of a desktop calendar panel (world clocks and weather), written in Verus
with its contracts proved.

- `src/` is the verified library:
  - `domain`: cities, clock configurations, clock snapshots, weather reports and the
    persisted store, with their mathematical views;
  - `clocks`: adding, removing and reordering world clocks, and the first-run defaults,
    with laws (zones stay distinct; reordering is a permutation when no shown zone is
    requested twice, and reordering twice is reordering once; removal undoes addition);
  - `world_time`: the offered cities and their search, 12-hour forms, UTC offsets,
    and what a clock shows in a time zone (readings come from chrono and chrono-tz);
  - `weather`: cache freshness, retry backoff, request plans and weather-code texts;
  - `location`: place labels and coordinate texts from IP location answers, and the
    order in which the location services are asked;
  - `taskbar`: recognising a click on the Windows taskbar clock;
  - `text`: decimal rendering and text matching used by the above.
- `tests/` exercise the library on concrete values.
- `app/` is the Tauri shell: commands, HTTP providers (reqwest), the JSON store on disk
  and the Windows mouse hook. Values with floating point numbers (coordinates,
  temperatures) live there.
