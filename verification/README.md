# cxkitty

A client for the Chaoxing course platform: sign-in (password, saved session,
QR code), the course, chapter, homework and exam lists, and a scheduler that
plays through the videos and documents of a course.

The library under `src/` is written in Verus. Everything it decides is stated
in `requires`/`ensures` contracts over mathematical models and proved:

- `json`, `html`, `pattern`, `weblink`: the reply documents as plain values
  (JSON, selected HTML elements, regular-expression matches, URL queries),
  with the outside parsers behind small trusted wrappers whose results are
  named.
- `courses`, `chapters`, `exams`, `homework`, `login`, `qr`, `attachment`,
  `document`, `video`: how each reply is read and each request is built.
- `urlenc`, `digest`, `crypto`: the encodings and signatures of the requests.
- `brush`, `video`, `batch`: the course run, the video playback and the
  background run over the chosen courses as state machines from state and
  event to next state and actions, with laws on stopping and on how a run
  ends (the running flag lowered, then an `error` event exactly on failure)
  and on the events sent (listed kinds and statuses, positions in range).
- `sessions`, `commands`: saved accounts, cookie strings, and what the
  commands answer.

`app/` holds the I/O around it: the `reqwest` session, the request sequences,
the session files, the drivers that perform the machines' actions, and the
commands. `tests/` runs the library on concrete pages and replies.
