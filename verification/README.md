# moodle_cli

A terminal client for the university's Moodle site: sign in through the
single sign-on (with a TOTP or mail second factor), browse courses, sections
and activities, take quizzes, open link resources and submit assignment files.

## Layout

- `src/` — the library, verified with Verus. Every page the client reads is
  turned into plain values here, and the client's decisions (what to request
  next, what a page means, what is shown, when to retry or stop) are made
  here, each with a contract:
  - `text` — character-level string operations (search, replace, trim, split,
    decimal numbers, UTF-8 byte widths);
  - `dom`, `pattern`, `unicode` — the calls into `scraper`, `regex` and the
    Unicode tables of std, each behind a small trusted wrapper;
  - `api` — course, section and activity listings, and site addresses;
  - `html2text` — removal of tag regions and the HTML-to-terminal conversion;
  - `auth` — the sign-in forms, second factors (`totp-rs`) and the assertion
    post;
  - `login_flow` — the sign-in as a state machine: each page or answer of
    the user decides the next request or the end;
  - `quiz` — questions, attempt forms, answers and the finishing request;
  - `quiz_flow` — taking a quiz as a state machine;
  - `assignment` — the submission form, the draft area, the upload
    settings, and what each reply means;
  - `assign_flow` — submitting a file as a state machine, from the
    assignment page to the outcome of the submission;
  - `resource` — link pages: files, content, images, folder names;
  - `ui` — menus and command-line modes.
- `app/` — the program: network requests (`reqwest`), the terminal, the
  files, the clock and the environment; it performs what the state machines
  ask for and hands back what came of it.
- `tests/` — tests of the library on concrete pages and replies.
