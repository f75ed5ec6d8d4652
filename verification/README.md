# deb-installer

Graphical `.deb` package installation wizard, with its decisions verified in
[Verus](https://github.com/verus-lang/verus).

- `src/` is the verified library. It holds the protocol between the front end and the privileged
  backend, the backend's session and its check of the front end's ancestry, the course of an
  installation, the log of its downloads, and the state of the user interface. It performs no
  input or output.
- `app/` is the program around it: the command line, the pipes and processes, the package manager,
  and the Qt user interface.
- `tests/` runs the library on concrete values.

What the library takes on trust is written down where it is used: each function marked
`external_body` and each `assume_specification` names the outside function and says what is
claimed of it.

A build with the environment variable `DEB_INSTALLER_AOSC` set enters installations in the history
of oma.

The program needs Qt with Kirigami and QQC2-Desktop-Style, gettext, and libapt-pkg.
