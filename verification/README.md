# lucky_sprint

The decision logic of a helper that plays the Lucky Sprint mini game of Epic Seven
on an Android emulator, as a Verus-verified library, with the desktop program
around it in `app/`.

`src/` (verified):

- `model` — the game state, the four actions, the LV0–LV5 lucky table, taking over
  a round by hand.
- `rules` — success chances, the 100m/200m supplies and lucky refills
  (`apply_progress`), and what each action can lead to (`transition`).
- `strategy` — the 200m-first fixed route (run, run, boost, shield, shield, lucky,
  shield, boost, lucky, lucky): skipping and retrying shields, detours, realigning
  to the meter, and the messages it logs.
- `runner` — the decisions of a running round (`RoundMachine`): what a meter
  reading means for the press waited on (a boost's step back included), which
  press to make, what an unconfirmed press tells, and the presses after 200m.
- `controller` — the `adb devices` list, choosing the device a serial setting
  names, merging device lists, and whether MaaFramework falls back to adb.
- `recognition` — keeping scaled regions inside the screenshot, tap points, and
  turning MaaFramework's BGR frames into RGB.
- `text` — decimal numbers in and out of text, whitespace, words.
- `config`, `events` — settings and status types.

`app/` holds what Verus does not see: the Tauri commands, the adb and
MaaFramework controllers, screenshots and template matching, the
expected-score planner (floating point), settings files, and the runner's loop
that captures, taps and waits.
