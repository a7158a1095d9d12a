# s4u_storage

The S4U personal storage server keeps the files of each user under
`./uploads/`, behind an actix-web HTTP API.

- `src/` is the verified library. Each handler's decisions are stated in
  its contract: which parameters it needs, which paths it touches and in what
  order (a `Plan` of file system steps), and what it answers to each outcome.
  It also holds the trash index, the storage quota and the upload session.
- `app/` is the server: routes, database access, and the file system steps
  that the library's plans and sessions ask for.
- `tests/` run the library on concrete requests.
