# carapace

The rules of a tag-driven roguelike, verified with Verus: tags and their registry, quests,
crafting, encounters, traps, durability, reputation and barter, narrative events, weather and
environmental conditions, saves, the glyph registry and atlas, the text of the HUD and panels,
and the prompts sent to a language model for narration.

- `src/` is the verified library. Each module states its behaviour in `requires`/`ensures`
  over spec functions, and the properties that span several operations are proof functions
  named `law_*`.
- `app/` is the front end around it: TOML data files, save files on disk, the HTTP client for
  the language model, the rolls of chance and the fractional arithmetic (color dimming, camera
  easing, mood and action scores), and drawing in the terminal.
- `tests/` exercises the library on concrete values.

Gene splicing is not part of the game, so neither the library nor the front end has rules
for it.
