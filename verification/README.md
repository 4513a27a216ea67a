# galactic

Deploy missions and collect the rewards for galactic readiness in Mass Effect 3,
on the N7 headquarters site. The identifier cookie of the site expires in a few
hours, but running the program once or twice a day should be enough.

```
galactic [FLAGS] --cookie <value> [SUBCOMMAND]

SUBCOMMANDS:
    automatic    refresh every missions untils the cookie expires
    refresh      refresh every missions and quits, this is the default
```

## Layout

- `src/` is the verified library:
  - `client.rs`: the missions of the player, the checks of the answers of the
    site, the cookie header and launch requests;
  - `client/mission.rs`: which missions a refresh launches, with its laws;
  - `html.rs`: reading the ratings and the data script out of the page
    (through `scraper`); `html/data.rs`: the data the page holds;
  - `cmd.rs`, `cmd/`: the commands and what each sets out to do;
  - `percent.rs`: the errors of reading a percentage;
  - `text.rs`: character-level text utilities.
- `app/` is the program around it: command line, HTTP, JSON, the clock, and
  the percentages, which are floating point numbers.
- `tests/` runs the library on concrete pages and missions.
