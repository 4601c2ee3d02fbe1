# rewind

`rewind` is a command-line tool that reads the state of a git repository
(branch, recent commits, status, staged and unstaged diffs), builds a prompt
from it and asks an LLM provider (Groq, Gemini or OpenAI) where the work was
left off.

## Layout

- `src/` is the library, verified with Verus:
  - `provider.rs`: the providers, their names, key prefixes and defaults;
  - `text.rs`: the string model (trimming, UTF-8 lengths, searching, lines);
  - `json.rs`: lookups in JSON text by JSON pointer, done by `serde_json`;
  - `error.rs`: the library's errors and their messages;
  - `git.rs`: formatting of branch, log and status, the bounded diff
    collector and the path exclusions;
  - `prompts.rs`: the system prompts, the user prompt, line truncation and
    the token estimate;
  - `config.rs`: the configuration, the model cache with its time to live,
    the `config` subcommands and first-time setup;
  - `client.rs`: provider and key resolution, API base and model choice,
    the retry policy and the reading of whole and streamed replies;
  - `models.rs`: the model ids of a provider's model list and the choice
    of a chat model among them;
  - `brief.rs`: the saved brief and its `.gitignore` entry.
- `app/` is the program around it: argument parsing, terminal output, the
  files on disk, the git repository and the HTTP calls.
- `tests/` holds the tests of the library.
