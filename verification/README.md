# model_serving

A language-model serving stack whose decision logic carries machine-checked
contracts and proofs.

- `src/` — the verified library:
  - `grpc_service`: service settings (`host:port` addresses, the log level
    and its parsing), the model registry and its records, span ids.
  - `inference_core`: the job queue in front of the model workers, the
    token-generation control loop, the choice of weight files, errors.
  - `web_service`: web settings, the conversation history kept in a
    session, the chat socket's turn-taking and error answers.
- `app/` — the program around it: command line, logging, the database,
  model loading and sampling with candle, worker threads and the HTTP
  servers.
- `tests/` — tests of the library.
