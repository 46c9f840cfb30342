# iLegalLearn desktop

The desktop shell of iLegalLearn, with its decisions in a Verus library.

- `src/address.rs`: web addresses as plain parts.
- `src/navigation.rs`: which addresses the window shows, which start a sign-in,
  which the system opens and which are blocked.
- `src/token.rs`: random tokens and the S256 code challenge.
- `src/callback.rs`: the browser's request to the local port and the page that
  answers it.
- `src/session.rs`: one sign-in, what it asks Google for and which return
  completes it.
- `src/sign_in.rs`: the course of a sign-in as a state machine.
- `src/json.rs`: JSON text, as it is written and as it is read.
- `src/report.rs`: the script that reports the result to the page.
- `src/pdf.rs`, `src/destination.rs`: checking and naming PDF downloads.
- `src/text.rs`: shared text functions.
- `app/`: windows, sockets, files and the browser.

The crates `url`, `base64`, `sha2`, `rand` and `serde_json` are called from the
library. What is believed of each call stands at the function that makes it.
