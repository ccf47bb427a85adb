# tensara

The library behind the `tensara` command line, the client of the Tensara
GPU-programming platform, written in Verus: every function in `src/` carries a
contract that Verus proves, except four small wrappers around outside code
whose contracts are trusted: `text::push_char` (`String::push`),
`trpc::json_string_literal` (`serde_json::to_string`), `trpc::url_encode`
(`urlencoding::encode`) and `init::regex_is_match` (`regex::Regex`).

- `src/` — the verified library: API URLs and endpoints, the submission
  request and its errors, the problem records and tRPC URLs, starter code and
  code checks, the problem list and page, the reading of the server-sent event
  streams (sample, checker, benchmark, submission) and the reports the
  command line prints.
- `tests/` — tests of the library on concrete values.
- `app/` — the command itself: argument parsing, HTTP, files, terminal
  output. It hands plain values to the library and prints what comes back.
