# herdr

The sidebar of a terminal workspace manager and the git facts it shows, written
in Verus: the functions of the library state what they do and are proved to do
it. Three small functions are trusted instead: `ratatui_rect_new` in
`src/sidebar/layout.rs`, and `ratatui_add_modifier` and `ratatui_remove_modifier`
in `src/sidebar/style.rs`. They call ratatui, and say in their comments what is
believed of it.

- `src/sidebar/` lays out the sidebar, lists the agents, and draws rows of tokens
  in a limited number of columns.
- `src/app.rs` decides when git facts are refreshed and for whom;
  `src/git_refresh.rs` joins the wishes into one job per checkout and hands the
  answers to those who asked.
- `src/app_state.rs`, `src/git_status.rs` and `src/path.rs` hold the data.
- `app/` connects the library to ratatui, the clock, git and the event loop.
- `tests/` runs the library.
