# zibi

Hand-gesture navigation for the niri compositor: a tracker process reports hand
landmarks as JSON lines, and swipes of the index fingertip move the focus
between columns (left/right) and workspaces (up/down).

The library under `src/` holds the logic, verified with Verus:

- `point`, `text`: the `x,y` point format, trimming, splitting and `i16`
  parsing as `str::trim`, `split_once`, `split_whitespace` and
  `i16::from_str` define them;
- `direction`: classifying a movement as a swipe;
- `gesture`: the sliding-window / cooldown state machine over fingertip
  samples;
- `landmark`, `hand`, `pipeline`: frames of the tracker output;
- `config`, `command`: settings, the settings form, and the supervisor that
  runs at most one tracker;
- `camera`, `order`: the sorted list of camera devices;
- `track`, `niri`: the tracker command line and the focus moves requested.

`app/` is the program around it: GTK window, configuration file, logging,
the tracker process, the niri socket and the JSON decoding of frames.
