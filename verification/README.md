# devcore

The logic of a developer-oriented desktop system, written in Verus: executable
Rust whose behaviour is stated in contracts and proved.

- `src/` is the library. `text`, `sorted`, `path`, `bytes`, `json`, `graph` and
  `files` are its foundations. `environment`, `execution`, `resource`,
  `build_plan`, `build_cache`, `test_plan`, `work`, `workspace` and `extensions`
  plan work in rootless environments. `installer`, `installer_service`,
  `firstboot`, `update`, `hardware`, `provision` and `provision_service` are the
  rules of the system services. `session`, `greeter`, `installer_screen`,
  `compositor`, `shell` and `studio` are those of the desktop.
- `app/` is one binary that holds the programs: services on the message bus and
  windows. It carries out what the library decides and hands back what happened.
- `tests/` runs the library on concrete values.

Where something has to be done outside the library, a module offers a machine: a
function from where an operation stands and what came of the last step to the
next step. The laws that span several steps stand beside it as public proof
functions.

The windows in `app/` need a backend of the window toolkit, which is chosen where
the programs are packaged. Snapshots of the machine's resources come from the
resource service over the message bus.
