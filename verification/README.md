# Vocal Magic

Tools for working on vocal music: enhancing a recording, transcribing singing to
MIDI, and splitting a mix into vocals and accompaniment.

`src/` is a library written in Verus. It holds what the program decides, with
contracts that Verus proves:

- `apps`: the catalogue of apps, models and parameters
- `db`, `events`: job records, the table that keeps them, and what listeners are told
- `storage`, `paths`, `text`: the file layout, file names and uploads
- `json`: job parameters
- `worker`, `models`: which model a job needs, with which settings it runs, and
  which samples of a signal go where
- `server`: what the HTTP interface accepts, stores and hands out
- `jobs`: an in-memory engine with one worker
- `metallib`: finding the Metal library and placing it beside the executable

Beside the contracts stand laws: proof functions, named `law_`, that relate
several functions.

`app/` is the program around the library: the web server, SQLite, the file
system, and the models themselves. `tests/` runs the library.

## Checkpoints

```
checkpoints
├── GAME-1.0-large
│   ├── config.yaml
│   ├── GAME-1.0-large.safetensors
│   └── lang_map.json
├── mbr-win10-sink8
│   └── mbr-win10-sink8.mlx.safetensors
├── melband-roformer
│   └── melband-roformer.mlx.safetensors
└── renaissance
    └── smule-renaissance-small.safetensors
```
