# omp_config

Decisions behind OMP's native files, written and proved in
[Verus](https://github.com/verus-lang/verus).

- `src/paths.rs`: which directory holds the files.
- `src/models.rs`: the provider entries of `models.json`. Every change is decided
  on the bytes that were read and carries the revision that the file must still
  have when it is written. `src/models_laws.rs` states what holds of all changes.
- `src/config.rs`: the default role of `config.yml`.
- `src/settings.rs`: the defaults of a `settings.json`.
- `src/state.rs`: what is shown of all this.
- `src/json.rs`, `src/yaml.rs`, `src/text.rs`, `src/revision.rs`, `src/files.rs`,
  `src/provider.rs`: what these rest on.
- `src/json_text.rs`, `src/yaml_text.rs`, `src/provider_map.rs`: the calls into
  `serde_json`, `json5`, `serde_yaml` and `indexmap`.

`app/` reads and writes the files, takes the locks and asks the environment.
