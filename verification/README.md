# chrome-window-dbus-bridge

A small daemon that tells the desktop what Chrome shows. A browser extension posts the active tab and
its window as JSON; the bridge finds out which Hyprland window that is, adds what it knows of the
window manager, and publishes the result over D-Bus.

What the bridge computes is a library whose behaviour is stated in contracts and proved by
[Verus](https://github.com/verus-lang/verus).

## Layout

- `src/` is the library.
  - `text`, `table`, `json`, `codec`, `ratio`, `confidence`: texts, tables with text keys, JSON values
    and how they are read and written, fractions, scores.
  - `geometry`, `similarity`: how alike two places and two titles are.
  - `client`, `state`, `watch`: the windows that Hyprland knows, its events, and how its socket is
    followed.
  - `scoring`, `mapping`: which Hyprland windows may be a Chrome window, and which one it is taken to
    be.
  - `context`, `enrich`, `publish`: what is added to a payload and what is published of it.
  - `request`, `hyprctl`, `clock`: answers to requests, calls of the command line tools, times.
  - `laws`: what holds of all this together.
- `app/` is the daemon around it: HTTP, D-Bus, sockets, processes and the clock.
- `tests/` runs the library.

Likeness is a fraction. Scores are counted in integers and add up, round and compare as
double-precision numbers do. Tables keep the order in which their keys came, so equal inputs always
give equal results.

## What is trusted

The contracts of a few functions of the standard library (in `text`), of `chrono` (in `clock`) and of
`serde_json` (in `codec`) are taken on trust; each says so where it stands.
