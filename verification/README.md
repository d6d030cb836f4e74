# vorto

A port forwarder for TCP and UDP tunnels whose decisions are written in Verus and proved.

`src/` is the library. It opens no file, no socket and no process: each function takes what
happened outside as plain values and returns what is to be done next, with a contract that says
exactly what that is.

| Module | What it decides |
| --- | --- |
| `text`, `number` | trimming, searching and splitting text; reading and writing decimal numbers |
| `addr` | which texts are socket addresses, and which address each one is |
| `config` | when a configuration is valid, how it is loaded and saved |
| `answer`, `screen`, `editor` | the configuration editor: its screen, its questions, its answers |
| `process`, `daemon` | the commands of the program, and the life of the background process |
| `manager`, `tunnel` | which tunnels start and stop, and how one tunnel starts, serves and ends |
| `nft`, `nft_manager` | the nftables rules of a list of tunnels, and the commands that install them |
| `supervisor` | running in the foreground, and following the configuration file as a daemon |
| `version` | what the program tells about its build |

Properties that span several functions stand next to them as public proof functions: that a
configuration stays valid whatever is typed into the editor, that a configuration that cannot be
loaded changes nothing and rules that are refused leave the installed ones in place,
that unchanged tunnels go on while others are replaced, that no two processes share a table, that a
process id is read back as it was written.

What the program tells about its build comes from environment variables of the compiler.
`extras/build_env.sh` takes the commit and its time from the git checkout, where they are not set
already, and then runs the build command that it is given.

`app/` is the program around the library: the YAML form of the configuration, the terminal, sockets,
the `nft` command, signals and timers. `tests/` runs the library.
