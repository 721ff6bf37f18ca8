# starmod

A mod manager for Starfield run through Steam/Proton: it extracts downloaded
mod archives, installs them by linking their files into the game directory,
and tells which mod wins when several install the same file.

## Layout

- `src/` — the library, verified with Verus. It decides everything the
  program does: the manifest of each installed mod, the order of the mod
  list, the conflicts between mods and who wins them, which files are linked
  and unlinked when mods are enabled or disabled, the installers (data mods,
  FOMOD mods with their selection state machine, loader mods, custom mods and
  labels), the tables the user is shown, the settings, and how a program is
  started through Proton.
  - `manifest`, `mods`, `conflict`: the model of the mod list and its laws,
    and what linking and unlinking do at each destination:
    - only enabled mods take part in conflicts, and the last enabled mod
      holding a file wins it (`conflict::lemma_winner_is_last_holder`); a
      link plan links each destination to the winner's file and to nothing
      else (`mods::lemma_plan_links_last_holder`, and for enabling one mod
      `mods::lemma_relink_links_last_holder`), once
      (`mods::lemma_plan_links_once`);
    - a mod loses to another exactly when the other wins over it
      (`conflict::lemma_loser_counted_by_winner`,
      `conflict::lemma_winner_counted_by_loser`);
    - a negative priority keeps a mod disabled (the contracts of
      `plan_enable`, `enable_mod`, `set_priority`);
    - the plan that disables the list right after enabling it unlinks every
      file enabling linked (`mods::lemma_disable_covers_enable`), and exactly
      those when no priority is negative
      (`mods::lemma_disable_undoes_enable`). Carrying the plans out on the
      game directory is the program's work.
  - `installers`: building a manifest from the listing of an extracted mod;
    `installers::fomod_xml` reads a FOMOD mod's XML files with the `fomod`
    crate.
  - `commands`: the decisions of each command.
  - `ui`: the tables and selection prompts, as data.
  - `text`, `paths`, `fuzzy`: string and path operations; the path operations
    and fuzzy scores are those of `camino` and `fuzzy-matcher`, named in the
    contracts by uninterpreted functions (the extension of a path is stated
    over its file name, as camino documents it).
- `app/` — the program around the library: command line (`clap`), logging,
  reading and writing manifests and settings (`ron`, `serde_json`, `toml`),
  walking directories, linking files, extracting archives, filling in the
  files below FOMOD folder entries, and the terminal (`comfy-table`,
  `inquire`).
- `tests/` — tests of the library on concrete values.
