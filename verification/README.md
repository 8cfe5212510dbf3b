# static_file_server

A static file server whose decisions are verified with Verus: request path
validation, content types and cache policy, HTTP dates, byte ranges,
conditional requests, content-coding negotiation, hotlink protection,
directory listings, response headers and server counters.

* `src/` is the verified library. Each request is taken through a few
  steps (`StaticFileHandler::begin`, `after_disk`, `after_kind`,
  `after_index`, `plan_file`); each step says what it needs to learn from
  the file system next, and the plan for a file says exactly which bytes
  to send under which head. Once the file has opened (or failed to),
  `body_sent` gives the head to answer with and counts the bytes sent;
  `multipart_layout` lays out a multipart body piece by piece.
* `app/` is the program around it: command line, logging, the axum
  routes and middleware, and the file-system and network work the steps
  ask for.
* `tests/` exercises the library on concrete values.
