# rust_hw

Small programs whose logic is verified by Verus.

- `src/` — the verified library:
  - `strcmp`: "greater than" in the lexicographic order of two strings' bytes, and its order laws.
  - `buffer`: a buffer over any primitive integer type and the sum of its elements.
  - `lifo`: a stack; `run_queue`: a FIFO queue of tasks.
  - `my_rc`: a shared, reference-counted value (on `std::rc::Rc`).
  - `signal`: the state machine of a wake-up signal (empty / waiting / notified).
  - `redis`: the key-value service state: items with expiry, deletion of listed keys,
    publish/subscribe registrations. `assoc` is the string-keyed map it is built on.
  - `command`: the client's command-line parser; `filter`: the banned-request filter;
    `http`: the web front end's form reading (`set` and `del` forms) and reply texts.
  - `text`, `number`: whitespace, trimming, splitting, searching, decimal parsing and printing.
  - `letters`, `sums`: moving letters on by one, and sums over ranges.
- `app/` — the programs around it: the thread-pool executor and the shared signal
  (lock + condition variable), the key-value client loop over an in-process service,
  the demos, and the HTTP fetch exercise.
- `tests/` — tests of the library on concrete values.
