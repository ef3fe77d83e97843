# ndn-dashboard-next

The logic of a browser-first operator dashboard for Named Data Networking
forwarders, verified with Verus, and the dashboard itself around it.

- `src/` is the library: capability probing and normalisation (`client`,
  `model`), the lifecycle of attached engines (`operations`), engine datasets
  (`engine`, `network`, `extensions`), observability (`observe`), typed
  management commands and their gates (`mutation`), trust and identity views
  (`identity`), router and dashboard configuration (`config`), network tools
  (`tools`), audit views (`audit`), preferences (`platform`), and what the views
  of the dashboard decide (`shell`). `text`, `number`, `order` and `list` are
  what these are built from. Every function states what it returns or changes.
- `tests/` runs the library on concrete values.
- `app/` is the dashboard: the Dioxus views, files, sockets and the tools. It
  calls the library for every decision.
- `extras/dashboard.css` is the style sheet that the dashboard links to.
