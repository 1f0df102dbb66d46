# lareview

The logic behind the review and generation screens of LaReview, a desktop
tool for reviewing code changes with the help of an AI agent, written and
proved in Verus.

## Layout

- `src/` — the verified library.
  - `text.rs`: character-level text operations (trim, lines, words, prefixes,
    decimal numbers) with their specifications.
  - `search.rs`: the first element of a sequence that satisfies a predicate.
  - `domain.rs`: review tasks, runs and statuses as the screens read them.
  - `ordering.rs`: the display order of sub-flows and tasks (a stable sort),
    with the laws that it lists every task once, open and risky tasks first,
    and that the order is unique.
  - `diff_snippet.rs`: the diff snippet shown beside a thread or a feedback
    item, read from a unified diff that `unidiff` parses.
  - `unidiff_safety.rs`: which diff texts `unidiff`'s parser reads without
    panicking, with a test of it.
  - `diff_text.rs`: the file a diff is about; diffs joined into one, and the
    cache of the joined text.
  - `tool_label.rs`: the `server: tool` label of an agent's tool call, from
    its title or its raw JSON input (`serde_json`).
  - `app.rs`: the application state and the actions the screens dispatch.
  - `detail_views.rs`: the feedback and thread panes: which item they show,
    the replies and renames they send, their location line.
  - `review_header.rs`: the review and run selectors, and the order of the
    review menu (selected first, then newest).
  - `pr_send.rs`: locations of feedback items sent to a pull request.
  - `review_screen.rs`, `generation.rs`, `settings.rs`, `visuals.rs`: the
    decisions of the screens (progress, next task, center pane, tabs,
    sub-flow headers, starting a run, agent settings and their dirty check,
    integration badges, labels and colors).
  - `logo_cache.rs`: agent logos read once from the bundled assets.
  - `timestamp.rs`: timestamps in local time (`chrono`).
  - `platform.rs`: which systems have native rounded window corners.
- `app/` — the edges: JSON values from the agent protocol turned into the
  library's types, and the native window calls of each platform.
- `tests/` — tests of the library.
