# OrbitBuild

OrbitBuild turns native arm64 and amd64 machines into one build farm for `docker buildx`. The
machines find each other through a shared document; a single string, the Beacon, admits a node.

| Directory | What it holds |
|:----------|:--------------|
| `src/`    | the library: what the nodes decide and compute, verified with Verus |
| `tests/`  | tests of the library |
| `app/`    | the `orbitbuild` program: networking, files, sockets, docker, the command line |

The program performs what the library tells it to do next and reports what came of it. Each
module of the library states its results over mathematical models (texts as sequences of
characters, paths and keys as sequences of bytes, bridges as a map from platforms) and ends in
the laws that relate its functions: a Beacon that was written is read back, a key that was stored
is loaded, a bridge leads to the idle Satellite that was heard of most recently, a wait for
sockets ends for a reason.

What the library takes on trust stands in a few small functions whose doc comments name the
outside function that they call: hexadecimal and base64url (`data-encoding`), public keys and
addresses (`iroh`), dates (`chrono`), random bytes (`rand`), and UTF-8 and `{:?}` (`std`).
