# merge_steward

The rules by which a steward looks after pull requests, merge queues and the
runners behind them: when a pull request is enqueued, when a failed run is started
again, when a run is cancelled to make room, who is told that a change needs work,
and when a pool of runners may take jobs.

`src/` is the library. Each rule is a function whose contract says what it returns
for every input, and Verus proves the contract. What several functions keep
together is stated by public proof functions.

- Texts, numbers, maps, documents: `text`, `text_map`, `numbers`, `json`,
  `path_text`, `fingerprint`. What the library takes from other crates stands in
  `outside` and `json`, and what it takes from the platform's paths in
  `launch_profile`.
- What is read from the provider: `model`, `observation`, `queue_snapshot`,
  `dispatch`, `dispatch_scan`.
- What is kept between passes: `ledger`, `pending`, `receipt`, `agent_route`.
- Decisions about pull requests: `plan`, `pr_walk`, `repo_walk`, `pass`, `pass_walk`,
  `enqueue`, `rerun`, `recovery`, `signal`, `native_arm`.
- Decisions about runs: `capacity`, `capacity_walk`, `terminal`, `force`, `resume`,
  `resume_walk`, `coalesce`, `revalidation`, `admission`, `lease`.
- A place in the queue that was lost: `queue_witness`, `witness_walk`,
  `queue_recovery`.
- Handoffs: `routes`, `handoff`, `launch_profile`, `disposition`, `worker`,
  `queue_control`.

Where a command reads, decides, writes and decides again, the library holds the
decisions as a step from a stage and a reply to the next stage, and the record
that has to be saved before the next request is sent. `guard` holds what the steps
have in common. Where a command goes through a list, a walk holds what was told so
far: it says what it asks for, takes the reply, and gives its report at the end.

`app/` performs the steps: it calls the provider's command line, reads and writes
files and prints. What the program around it knows comes in through a trait.

`tests/` runs the library on concrete values.
