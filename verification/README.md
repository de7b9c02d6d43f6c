# Panopticon

A server that reviews GitHub repositories with an LLM: on a schedule, and on demand.

`src/` is the library. It holds the rules of the server as verified Rust: what a repository URL
is, which files of a clone are read and how they are cut to a model's context, what is asked of
the LLM and how its streamed answer is read, the tables of the database and every operation on
them, the job queue with its retries, the course of a review, and what the API answers.

- `domain` - ids, jobs, prompts, repositories, reviews, untrusted text
- `github` - clones, the walk through their files, the file filter, chunking
- `llm` - the schema of answers, providers, OpenAI's Responses API
- `db` - the tables and their rows
- `scheduler` - the job runner, reviews, prompts, cleanup
- `api` - handlers, authorization, stream tokens, server-sent events
- `config`, `static_files`, `text`, `time`

Contracts are stated over characters, sequences and maps. What holds across functions (that no
review is left in progress, that a stream token is used once, that what was written is read back)
is stated in public proof functions next to the functions it is about.

`app/` is the program around it: it reads the configuration, talks to SQLite, git, the LLM and
HTTP clients, and otherwise does what the library says.

`tests/` holds the tests of the library.
