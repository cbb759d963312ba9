# thucra

The verified core of a desktop helper that answers the VNPT CA plugin calls
of signing web pages over a local TLS web socket.

- `src/` is the library, verified with Verus: the plugin's request dispatch
  and replies (`vnpt::plugin`), the reply's JSON text and how it reads back
  (`vnpt::schema`), the port scan that brings the service up
  (`vnpt::service`), and the paths and `openssl` command of the first start
  (`setup`).
- `tests/` runs the library with the real `base64` and `serde_json`.
- `app/` is the program around it: the window, the web socket server, file
  and process I/O.
