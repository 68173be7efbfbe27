# meetily-server

The server of a self-hosted meeting recorder: a browser captures audio and shows the
user interface; transcription, summaries, models and storage are the server's.

## Layout

- `src/` is the core, verified with Verus: every function has a contract that says what
  it returns or changes, and the properties that span functions are proved beside them.
- `app/` is the HTTP server around it. It performs what the core asks for. The database,
  the transcription engines and the language models stand behind the trait `Backend`.
- `tests/` runs the core on concrete values.

| Module | What it holds |
|---|---|
| `auth`, `state`, `routes` | one shared password, login sessions in memory, who reaches what |
| `commands`, `dispatch` | the commands by name, and what each of them does |
| `args`, `meetings`, `settings`, `summary`, `engines` | the commands, by what they are about |
| `protocol` | what commands ask of the world outside, and what comes of it |
| `jobs` | the background job that makes a summary |
| `segmenter`, `pcm`, `live` | a live recording: samples, utterances, and what is told of them |
| `transcription` | running an utterance through an engine |
| `upload`, `imports` | an uploaded file, and the background job that transcribes it |
| `startup` | from the environment to a configuration |
| `json`, `text`, `paths`, `error`, `events` | values that all of them share |
| `outside` | the calls into other crates, with what is relied on of each |

## Conversations

Commands, summaries, recordings, transcriptions and imports are state machines. Each gives a step:
an answer, or an action together with what it waits for. The caller performs the action
and hands back the outcome, after asking whether it is one that can come of the action.
Every conversation but a recording ends after a bounded number of actions, and a recording
does so once it has been stopped.

## Numbers

Floating point stays in `app/`. The core carries doubles as their bits, reads samples as
the bits of singles, counts times in samples or nanoseconds, and is told by a function
whether a stretch of samples is quiet.
