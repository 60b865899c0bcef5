# POSEIDEN

POSEIDEN watches a team's backlog: it reads work items, pipelines and pull requests from a tracker,
flags what breaks the team's rules, and suggests tags.

- `src/` is the verified library. `rules` holds the hygiene rules, `providers` what Azure DevOps,
  GitLab and the demonstration data mean, `ai` the prompts, the answers and the choice of a model,
  `doctor` and `checks` the health checks, `token` and `server` who a request belongs to, and
  `config`, `config_store` and `paths` the settings and where they are kept.
- `tests/` runs the library.
- `app/` is the program around it: the command line, HTTP, files and models.

Calls into other crates stand behind small functions whose doc comments say what is taken on trust.
