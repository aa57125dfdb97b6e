# parviocula

An ASGI server bridge: HTTP requests received by an axum handler are handed to
a Python ASGI application through pyo3, and the messages the application sends
back are assembled into the HTTP response.

- `src/` is the verified library (Verus). It holds every decision of the
  bridge: the ASGI `http` scope built from a request head (`scope`), the
  percent-decoding of the path (`percent`), the validation of response
  headers and status (`headers`), what the request-body receiver answers
  (`receive`), the response assembly as a state machine over the
  application's messages, with its laws (`response`), and the answer sent
  for each error (`error`).
- `app/` is the unverified shell: the axum `Handler`, the pyo3 classes
  `send` and `receive`, and the conversions between Python dictionaries,
  axum requests and responses, and the library's plain types.
- `tests/` runs the library on concrete requests and message streams.
