# sendfiles

The decision core of a desktop client that shares files with Android devices
over Quick Share, written in Rust and verified with Verus.

- `src/startup.rs`: the directory for received files and the device name.
- `src/transfer.rs`: from the messages of the transfer service to the events of
  the window.
- `src/devices.rs`: the list of devices found, and orders to send to them.
- `src/ui.rs`: the state of the window and what each event and click does to it.
- `src/session.rs`: what holds of the window over a whole session.
- `src/filename.rs`: file names as shown.
- `src/figures.rs`: sizes and percentages as shown, to the last digit.
- `src/text.rs`: numerals, substring tests, trimming and upper-casing. The one
  function of the standard library that is trusted, `char::to_uppercase`, stands
  here.

`app/` is the program around it: it runs the service, waits on its channels and
shows the state in GTK widgets. `tests/` runs the library on concrete values.
