# slip_core

The logic of a small deployment daemon, verified with Verus: combining server and
repository configuration, rendering pod manifests, rolling deploys and previews
out and back, polling health, choosing registry credentials, diffing
configuration, diagnosing hosts.

## Layout

- `src/` is the library. Every function in it is verified; what it takes from
  outside crates stands behind small functions whose doc comments say what is
  believed of them.
- `tests/` runs the library.
- `app/` carries out what the library orders: containers, the proxy, files,
  processes, clocks and shared state.

## How the parts fit together

What decides and what acts are kept apart. A deploy (`rollout`), a preview deploy
(`preview_rollout`), a health poll (`health`) and the extraction of a file from an
image (`extract`) are machines: each says what is to be done next, takes the
outcome, and ends with a verdict. Whoever drives one carries out its orders.

Around the machines stand plain functions on plain values: `merge`, `manifest`
over `yaml`, `registry`, `deploy`, `preview`, `docker`, `podman`, `reconcile`,
`diff` over `json` and `patch`, `doctor` over `ip`. The tables of previews and of
the latest deploys are in `previews` and `deploy`.

What holds of the machines as a whole, such as that every deploy ends and that a
failed one leaves what runs alone, is proved in `rollout_laws`, `preview_laws` and
`manifest_laws`, and beside the functions concerned.
