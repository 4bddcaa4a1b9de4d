# bangumi_download

A program that follows bangumi RSS feeds of mikanime.tv, adds new episodes
to the offline downloads of a 115 cloud drive, and downloads finished tasks.
The first start runs the server, which listens on a unix socket; a start
while the server runs opens a terminal client that shows the feeds, the
downloads and the filter rules.

## Layout

- `src/` is the library, verified with Verus: the episode filters and the
  reading of feeds and RSS links, the decisions of the download refreshes,
  the cloud's answers (task lists, magnet hashes, cookies, file checks), the
  RSA blocks of the cloud's requests, the QR code drawing, the framing of
  socket messages, the server's progress state, and the terminal interface as
  a state machine (`tui::events`) with its text editor (`tui::editor`).
  Calls into outside crates (regex, url parsing, chrono, qrcode, num-bigint,
  rand, unicode-segmentation) sit behind small trusted wrappers whose
  contracts are written next to them.
- `app/` is the program around it: HTTP requests, files, the socket, the
  configuration file, tokio tasks, and drawing with ratatui.
- `tests/` runs the library on concrete values.
