# Capsule

A command-line client for a Capsule file server. It uploads files, encrypts
them before if asked to, downloads them again, and remembers what was
transferred.

`src/` is a library, verified with Verus, that makes the client's decisions:

- `links`, `headers`, `paths`: identifiers, addresses and file names
- `upload`, `download`: what is done next, step by step
- `upload_runs`, `download_runs`: what holds of every run of those steps
- `crypt`, `qr`, `status`: phrases, encryption, pictures of links, statuses
- `history`, `recents`, `clock`, `temp`, `server`, `style`: what is kept and shown
- `text`: searching, trimming and splitting text, and writing numbers

`app/` is the program around it: arguments, files, the network and the terminal.
It carries out the action that the library returns and hands back what came of
it. `tests/` runs the library on concrete values.
