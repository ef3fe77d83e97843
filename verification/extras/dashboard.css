:root {
  color-scheme: dark;
  --bg: #161616;
  --bg-rail: #161616;
  --surface: #262626;
  --surface-2: #393939;
  --surface-3: #525252;
  --surface-raised: #303030;
  --field: #393939;
  --border: #393939;
  --border-strong: #6f6f6f;
  --text: #f4f4f4;
  --muted: #c6c6c6;
  --faint: #8d8d8d;
  --accent: #0f62fe;
  --accent-2: #33b1ff;
  --blue: #78a9ff;
  --green: #42be65;
  --amber: #f1c21b;
  --red: #fa4d56;
  --focus: #ffffff;
  --shadow: rgba(0, 0, 0, .38);
  --nav-w: 256px;
  --nav-collapsed-w: 64px;
}

* { box-sizing: border-box; }
html, body, #main { margin: 0; min-height: 100%; background: var(--bg); color: var(--text); }
body { font-family: Inter, ui-sans-serif, system-ui, -apple-system, BlinkMacSystemFont, "Segoe UI", sans-serif; }
button, input, select, textarea { font: inherit; }
button { cursor: pointer; }
button:disabled { cursor: not-allowed; opacity: .62; }
button:focus-visible, a:focus-visible, [tabindex]:focus-visible {
  outline: 2px solid var(--focus);
  outline-offset: 2px;
  box-shadow: 0 0 0 4px rgba(15, 98, 254, .34);
}

.skip-link {
  position: fixed; left: 10px; top: 10px; z-index: 10; transform: translateY(-160%);
  background: var(--focus); color: #161616; border-radius: 0; padding: 7px 10px;
  font-size: 12px; font-weight: 800; text-decoration: none;
}
.skip-link:focus { transform: translateY(0); }

.app-shell {
  min-height: 100vh;
  display: grid;
  grid-template-columns: var(--nav-w) minmax(0, 1fr);
  background: var(--bg);
}
.app-shell.nav-collapsed { grid-template-columns: var(--nav-collapsed-w) minmax(0, 1fr); }

.density-compact { --gap: 8px; --pad: 16px; --row: 32px; --font-sm: 12px; --font-xs: 11px; }
.density-comfortable { --gap: 16px; --pad: 24px; --row: 40px; --font-sm: 13px; --font-xs: 12px; }

.sidebar {
  position: sticky;
  top: 0;
  isolation: isolate;
  height: 100vh;
  padding: 0;
  border-right: 1px solid var(--border);
  background: var(--bg-rail);
}

.brand {
  display: flex; gap: 10px; align-items: center; min-height: 48px;
  padding: 0 48px 0 16px; border-bottom: 1px solid var(--border);
}
.brand-mark {
  width: 32px; height: 32px; display: grid; place-items: center;
  background: var(--accent); color: #ffffff; font-weight: 800; border-radius: 0;
}
.brand-title { font-size: 13px; font-weight: 700; }
.brand-sub { color: var(--muted); font-size: var(--font-xs); margin-top: 2px; }
.nav-collapse-button {
  position: absolute; top: 8px; right: 8px; z-index: 1;
  width: 32px; height: 32px; display: grid; place-items: center; padding: 0;
  border: 1px solid transparent;
  border-radius: 0; background: transparent; color: var(--muted);
}
.nav-collapse-button:hover { color: var(--text); border-color: var(--border); background: var(--surface); }
.hamburger-icon, .panel-toggle-icon {
  width: 14px; display: grid; gap: 3px; align-content: center; justify-items: stretch;
}
.hamburger-icon span, .panel-toggle-icon span {
  display: block; height: 2px; border-radius: 999px; background: currentColor;
}
.panel-toggle-icon { width: 13px; transform: rotate(90deg); }
.nav-list { display: grid; gap: 0; padding: 8px 0; }
.nav-item, .bottom-item {
  border: 0; background: transparent; color: var(--muted); text-align: left; padding: 0 16px;
  border-radius: 0; font-size: var(--font-sm);
}
.nav-item { display: flex; align-items: center; gap: 12px; min-width: 0; min-height: 40px; border-left: 3px solid transparent; }
.nav-icon {
  flex: 0 0 28px; min-height: 28px; display: grid; place-items: center;
  color: var(--blue); font-size: 10px; font-weight: 850;
}
.nav-label { min-width: 0; overflow: hidden; text-overflow: ellipsis; white-space: nowrap; }
.nav-item:hover, .bottom-item:hover { color: var(--text); background: var(--surface); }
.nav-item.active, .bottom-item.active {
  background: var(--surface); color: var(--text); border-left-color: var(--accent);
  box-shadow: none;
}
.nav-collapsed .sidebar { padding: 0; }
.nav-collapsed .brand { display: none; }
.nav-collapsed .brand-copy, .nav-collapsed .nav-label { display: none; }
.nav-collapsed .nav-collapse-button { position: static; width: 100%; height: 48px; margin-bottom: 8px; border-bottom: 1px solid var(--border); }
.nav-collapsed .nav-item {
  justify-content: center; padding: 0; min-height: 40px; border-left-width: 2px;
}
.nav-collapsed .nav-icon { flex-basis: 30px; min-height: 28px; }

.main { min-width: 0; display: flex; flex-direction: column; }
.main:focus { outline: none; }
.attach-bar {
  position: sticky; top: 0; z-index: 2; min-height: 48px; padding: 0 var(--pad);
  display: flex; align-items: center; gap: var(--gap); justify-content: space-between;
  border-bottom: 1px solid var(--border);
  background: rgba(22, 22, 22, 0.96);
  backdrop-filter: blur(8px);
}
.attach-primary { min-width: 0; }
.attach-label { color: var(--faint); font-size: 10px; text-transform: uppercase; letter-spacing: 0; }
.attach-value { font-weight: 750; font-size: 15px; }
.attach-meta { color: var(--muted); font-size: var(--font-xs); overflow: hidden; text-overflow: ellipsis; white-space: nowrap; }
.chip-row { display: flex; align-items: center; justify-content: flex-end; flex-wrap: wrap; gap: 6px; }
.chip {
  display: inline-flex; min-height: 22px; align-items: center; border-radius: 0; padding: 2px 8px;
  border: 1px solid var(--border); font-size: var(--font-xs); white-space: nowrap; color: var(--muted);
  background: transparent;
}
.chip.good { color: var(--green); border-color: rgba(66, 190, 101, .75); background: rgba(66, 190, 101, .08); }
.chip.amber { color: var(--amber); border-color: rgba(241, 194, 27, .75); background: rgba(241, 194, 27, .08); }
.chip.bad { color: var(--red); border-color: rgba(250, 77, 86, .75); background: rgba(250, 77, 86, .08); }
.chip.muted { color: var(--faint); }
.chip.neutral, .chip.info { color: var(--blue); border-color: rgba(120, 169, 255, .58); background: rgba(120, 169, 255, .08); }
.density-toggle, .primary-action, .tool-button {
  min-height: 32px; border-radius: 0; border: 1px solid var(--border); background: transparent;
  color: var(--text); padding: 0 12px; font-size: var(--font-xs);
}
.density-toggle:hover, .primary-action:hover, .tool-button:hover { border-color: var(--border-strong); background: var(--surface); }
.primary-action, .tool-button.primary {
  border-color: var(--accent); background: var(--accent); color: #ffffff;
}
.primary-action:hover, .tool-button.primary:hover {
  border-color: #4589ff; background: #4589ff; color: #ffffff;
}
.operator-band {
  min-width: 0; display: grid; grid-template-columns: minmax(0, 1fr) auto; gap: 1px;
  align-items: stretch; padding: 0 var(--pad); border-bottom: 1px solid var(--border);
  background: var(--border);
}
.operator-compact {
  min-width: 0; display: grid; grid-template-columns: minmax(0, 1fr) minmax(0, 1fr) auto;
  gap: 1px; align-items: stretch; background: var(--border);
}
.operator-line {
  min-width: 0; min-height: 44px; display: grid; grid-template-columns: auto 70px minmax(0, 1fr);
  gap: 8px; align-items: center; padding: 6px 10px; background: var(--surface);
}
.operator-kicker {
  color: var(--faint); font-size: 10px; line-height: 1; text-transform: uppercase;
}
.operator-line strong {
  min-width: 0; overflow: hidden; text-overflow: ellipsis; white-space: nowrap;
  font-size: 13px; line-height: 1.2; font-weight: 700;
}
.status-dot {
  width: 9px; height: 9px; display: inline-block; border-radius: 50%;
  background: var(--border-strong); box-shadow: 0 0 0 1px rgba(255,255,255,.08);
}
.status-dot.good { background: var(--green); box-shadow: 0 0 0 2px rgba(66, 190, 101, .14); }
.status-dot.amber {
  background: var(--amber); box-shadow: 0 0 0 2px rgba(241, 194, 27, .14);
  animation: status-pulse 1.8s ease-in-out infinite;
}
.status-dot.bad { background: var(--red); box-shadow: 0 0 0 2px rgba(250, 77, 86, .14); }
.status-dot.info { background: var(--blue); box-shadow: 0 0 0 2px rgba(120, 169, 255, .14); }
.status-dot.muted { background: var(--border-strong); }
@keyframes status-pulse {
  0%, 100% { opacity: .55; }
  50% { opacity: 1; }
}
@media (prefers-reduced-motion: reduce) {
  .status-dot.amber { animation: none; }
}
.operator-status {
  min-width: 0; display: grid; grid-template-columns: auto minmax(0, 1fr); gap: 8px; align-items: center;
  min-height: 56px; border: 0; border-radius: 0; padding: 8px 12px; background: var(--surface);
}
.operator-popover { position: relative; }
.operator-popover summary {
  min-height: 44px; display: inline-flex; align-items: center; cursor: pointer;
  color: var(--blue); font-size: var(--font-xs); list-style: none; padding: 0 10px;
  background: var(--surface);
}
.operator-popover summary::-webkit-details-marker { display: none; }
.operator-popover-body {
  position: absolute; right: 0; top: calc(100% + 8px); z-index: 5; width: min(520px, calc(100vw - 32px));
  padding: 10px 12px; border: 1px solid var(--border-strong); background: var(--surface); box-shadow: 0 18px 40px var(--shadow);
}
.operator-title { color: var(--faint); font-size: 10px; text-transform: uppercase; }
.operator-main { font-size: var(--font-sm); font-weight: 750; overflow: hidden; text-overflow: ellipsis; white-space: nowrap; }
.operator-meta { overflow: hidden; text-overflow: ellipsis; white-space: nowrap; }
.operator-actions { display: flex; gap: 1px; align-items: stretch; justify-content: flex-end; flex-wrap: wrap; background: var(--border); }
.operator-actions .tool-button { min-width: 72px; white-space: nowrap; }
.operator-message {
  grid-column: 1 / -1; display: flex; gap: 8px; align-items: center; min-height: 32px;
  border-radius: 0; border: 0; border-top: 1px solid var(--border); padding: 6px 12px; font-size: var(--font-xs);
  background: var(--surface);
}
.operator-message strong { white-space: nowrap; }
.operator-message span { color: var(--muted); overflow-wrap: anywhere; }
.operator-message.good { box-shadow: inset 3px 0 0 var(--green); background: var(--surface); }
.operator-message.good strong { color: var(--green); }
.operator-message.bad { box-shadow: inset 3px 0 0 var(--red); background: var(--surface); }
.operator-message.bad strong { color: var(--red); }
.operator-message.neutral { box-shadow: inset 3px 0 0 var(--blue); background: var(--surface); }
.operator-message.neutral strong { color: var(--blue); }

.workspace { padding: var(--pad); min-width: 0; }
.view-grid { display: grid; grid-template-columns: minmax(0, 1.2fr) minmax(320px, .8fr); gap: var(--gap); align-items: start; }
.operations-grid { grid-template-columns: minmax(0, 1.15fr) minmax(340px, .85fr); }
.operations-grid > .panel:first-child { grid-column: 1 / -1; }
.operations-grid > .panel:nth-child(4) { grid-column: 1 / -1; }
.ops-disclosure-grid { display: grid; grid-template-columns: minmax(0, .9fr) minmax(0, 1fr) minmax(0, 1.1fr); gap: var(--gap); align-items: start; }
.observe-grid, .engine-grid, .tools-grid { grid-template-columns: minmax(0, 1fr) minmax(360px, .8fr); }
.tools-grid-collapsed { grid-template-columns: minmax(0, 1fr) 54px; }
.settings-grid { grid-template-columns: minmax(380px, 1fr) minmax(420px, 1.05fr); }
.panel {
  min-width: 0; border: 1px solid var(--border); background: var(--surface); border-radius: 0;
  padding: 0; box-shadow: none;
}
.panel > :not(.panel-title):not(.panel-title-row) { margin-left: var(--pad); margin-right: var(--pad); }
.panel > :last-child { margin-bottom: var(--pad); }
.panel-title {
  font-size: 12px; font-weight: 650; margin: 0 0 var(--pad); min-height: 40px;
  display: flex; align-items: center; padding: 0 var(--pad); border-bottom: 1px solid var(--border);
  background: #1f1f1f; color: var(--text);
}
.panel-title-row { display: flex; align-items: center; justify-content: space-between; gap: 8px; margin-bottom: 10px; }
.panel-title-row .panel-title { margin: 0; }
.panel-toolbar, .hero-line, .tool-actions { display: flex; gap: 6px; align-items: center; flex-wrap: wrap; margin-bottom: 12px; }
.mono { font-family: "SF Mono", Consolas, ui-monospace, monospace; font-size: var(--font-xs); color: var(--muted); }
.compact-copy { color: var(--muted); font-size: var(--font-sm); line-height: 1.45; }

.operations-board {
  min-width: 0; display: grid; grid-template-columns: minmax(0, 1fr) minmax(220px, .34fr);
  gap: 10px; align-items: stretch;
}
.ops-command-surface {
  min-width: 0; display: grid; grid-template-columns: minmax(0, 1fr) auto auto;
  gap: 1px; align-items: stretch; background: var(--border);
}
.ops-current {
  min-width: 0; display: grid; align-content: center; gap: 3px; padding: 8px 10px;
  background: var(--surface-2);
}
.ops-current-title {
  min-width: 0; display: grid; grid-template-columns: auto minmax(0, 1fr); gap: 7px; align-items: center;
}
.ops-current-title.target strong { color: var(--muted); font-size: var(--font-xs); }
.ops-current-title strong {
  min-width: 0; overflow: hidden; text-overflow: ellipsis; white-space: nowrap;
  font-size: 14px; line-height: 1.2;
}
.ops-status-strip {
  min-width: 0; display: grid; grid-template-columns: repeat(3, minmax(70px, 1fr));
  gap: 1px; background: var(--border);
}
.ops-status-item {
  min-width: 0; display: grid; grid-template-columns: auto minmax(0, 1fr); gap: 6px; align-items: center;
  padding: 0 10px; background: var(--surface); font-size: var(--font-xs);
}
.ops-status-item strong { min-width: 0; overflow: hidden; text-overflow: ellipsis; white-space: nowrap; font-weight: 650; }
.inline-actions { flex-wrap: nowrap; }
.ops-capability-meter {
  min-width: 0; display: grid; grid-template-columns: repeat(4, minmax(0, 1fr)); gap: 1px;
  background: var(--border); min-height: 38px; align-self: stretch;
}
.meter-segment {
  min-width: 0; display: grid; place-items: center; background: #1f1f1f; color: var(--faint);
  border-top: 2px solid var(--border-strong); font-size: 10px; text-transform: uppercase;
}
.meter-segment.enabled { color: var(--text); border-top-color: var(--green); }
.meter-segment.disabled { color: var(--faint); border-top-color: var(--border-strong); }
.ops-disclosure {
  min-width: 0; border: 1px solid var(--border); background: var(--surface);
}
.ops-disclosure summary {
  min-height: 38px; display: flex; align-items: center; justify-content: space-between; gap: 10px;
  padding: 0 12px; border-bottom: 1px solid var(--border); cursor: pointer; color: var(--text);
  background: #1f1f1f; font-size: var(--font-sm); font-weight: 650;
}
.ops-disclosure summary::marker { color: var(--blue); }
.ops-disclosure > :not(summary) { margin: 10px 12px 12px; }

.trace-list { display: grid; gap: 6px; }
.trace-search { margin-bottom: 8px; }
.trace-search input {
  width: 100%; min-height: 30px; border-radius: 6px; border: 1px solid var(--border);
  background: var(--surface-2); color: var(--text); padding: 5px 8px; font-size: var(--font-sm);
}
.observe-guidance {
  display: grid; gap: 3px; margin-bottom: 8px; padding: 8px; border: 1px solid rgba(229, 184, 92, .34);
  border-radius: 6px; background: rgba(229, 184, 92, .08); color: var(--muted); font-size: var(--font-sm);
}
.observe-guidance strong { color: var(--amber); }
.trace-row, .sample-card {
  display: grid; gap: 8px; align-items: center; min-height: var(--row);
  grid-template-columns: minmax(0, 1fr) auto auto auto; padding: 8px 10px; border: 0;
  border-bottom: 1px solid var(--border); border-radius: 0; background: transparent;
}
.sample-card { grid-template-columns: 1fr; align-items: stretch; }
.sample-list { display: grid; gap: 8px; }
.sample-card-head { display: flex; gap: 8px; align-items: center; justify-content: space-between; }
.row-title { font-weight: 700; font-size: var(--font-sm); }
.row-sub { overflow: hidden; text-overflow: ellipsis; white-space: nowrap; }
.metric { color: var(--muted); font-size: var(--font-xs); white-space: nowrap; }
.summary-grid { display: grid; grid-template-columns: repeat(4, minmax(0, 1fr)); gap: 1px; margin-bottom: 10px; background: var(--border); }
.capability-list, .lifecycle-list { display: grid; gap: 6px; }
.capability-line, .lifecycle-row {
  min-width: 0; display: grid; grid-template-columns: minmax(0, 1fr) auto; gap: 8px; align-items: center;
  min-height: var(--row); border: 0; border-bottom: 1px solid var(--border); border-radius: 0; background: transparent; padding: 7px 0;
}
.compact-lifecycle {
  gap: 1px; background: var(--border);
  grid-template-columns: repeat(auto-fit, minmax(min(170px, 100%), 1fr));
}
.lifecycle-row {
  grid-template-columns: auto minmax(0, 1fr) auto; gap: 7px; min-height: 38px;
  padding: 7px 8px; border-bottom: 0; background: var(--surface);
}
.lifecycle-row.disabled { opacity: .74; }
.icon-button {
  width: 32px; height: 32px; display: grid; place-items: center; border-radius: 0;
  border: 1px solid var(--border); background: transparent; color: var(--text);
  font-weight: 800; line-height: 1;
}
.icon-button:hover { border-color: var(--accent); color: var(--accent); background: rgba(24, 170, 255, .10); }
.evidence-table .table-head, .evidence-table .table-row {
  grid-template-columns: minmax(0, .65fr) minmax(0, 1.8fr) minmax(0, .8fr);
}
.stage-strip { display: grid; grid-template-columns: repeat(6, minmax(0, 1fr)); gap: 5px; margin-bottom: 10px; }
.stage { min-height: 42px; display: grid; place-items: center; border-radius: 6px; border: 1px solid var(--border); font-size: var(--font-xs); }
.live-stage-strip { margin-top: 10px; }
.live-stage-strip .stage { place-items: start; align-content: center; padding: 7px; overflow: hidden; }
.stage strong, .stage span { max-width: 100%; overflow: hidden; text-overflow: ellipsis; white-space: nowrap; }
.stage.ok { color: var(--green); border-color: rgba(103, 208, 141, .38); background: rgba(103, 208, 141, .09); }
.bridge-status {
  display: flex; align-items: center; gap: 8px; margin-top: 8px; padding: 7px 8px;
  border: 1px solid var(--border); border-radius: 6px; background: var(--surface-2);
  color: var(--muted); font-size: var(--font-xs);
}
.bridge-status span:last-child { overflow-wrap: anywhere; }
.span-tree { display: grid; gap: 5px; margin-top: 10px; }
.mini-section-title { color: var(--muted); font-size: 10px; text-transform: uppercase; margin-bottom: 5px; }
.mini-empty {
  min-height: 28px; display: grid; align-items: center; color: var(--faint); font-size: var(--font-xs);
  border: 1px dashed var(--border); border-radius: 6px; padding: 5px 8px;
}
.pit-fanout { margin-top: 10px; }
.pit-row {
  display: grid; grid-template-columns: minmax(0, 1fr) auto minmax(0, 1.2fr) auto; gap: 8px; align-items: center;
  min-height: 30px; padding: 5px 8px; border: 1px solid rgba(229, 184, 92, .32); border-radius: 6px;
  background: rgba(229, 184, 92, .07); font-size: var(--font-xs); margin-bottom: 5px;
}
.pit-row span, .pit-row strong { min-width: 0; overflow: hidden; text-overflow: ellipsis; white-space: nowrap; }
.pit-row span { color: var(--muted); }
.span-node {
  display: grid; grid-template-columns: minmax(0, 1.2fr) minmax(0, .9fr) auto auto auto; gap: 8px; align-items: center;
  min-height: 32px; padding: 6px 8px; border: 1px solid var(--border); border-radius: 6px;
  background: var(--surface-2); font-size: var(--font-xs);
}
.span-node div { min-width: 0; display: grid; gap: 2px; }
.span-node span { color: var(--muted); overflow: hidden; text-overflow: ellipsis; white-space: nowrap; }
.trace-logs { margin-top: 10px; }
.log-row {
  display: grid; grid-template-columns: auto auto minmax(0, .85fr) auto minmax(0, 1.5fr); gap: 8px; align-items: center;
  min-height: 30px; padding: 5px 8px; border: 1px solid var(--border); border-radius: 6px;
  background: var(--surface-2); font-size: var(--font-xs); margin-bottom: 5px;
}
.log-row span, .log-row strong { min-width: 0; overflow: hidden; text-overflow: ellipsis; white-space: nowrap; }
.log-row span { color: var(--muted); }

.detail-table { display: grid; gap: 6px; }
.kv {
  min-height: var(--row); display: flex; align-items: center; justify-content: space-between; gap: 12px;
  border-bottom: 1px solid var(--border); padding: 4px 0; font-size: var(--font-sm);
}
.kv span { color: var(--muted); }
.kv strong { text-align: right; font-weight: 700; overflow-wrap: anywhere; }
.metrics-grid { display: grid; grid-template-columns: repeat(4, minmax(0, 1fr)); gap: 6px; margin-bottom: 10px; }
.metric-card { padding: 12px; border: 0; border-radius: 0; background: var(--surface-2); }
.metric-card span { display: block; color: var(--muted); font-size: var(--font-xs); }
.metric-card strong { display: block; margin-top: 5px; font-size: 20px; font-weight: 500; }
.dense-table { display: grid; border: 1px solid var(--border); border-radius: 0; overflow: hidden; }
.table-head, .table-row { display: grid; grid-template-columns: .6fr minmax(0, 2fr) 1fr 1fr; min-height: var(--row); align-items: center; }
.table-head { background: #1f1f1f; color: var(--muted); font-size: 10px; text-transform: uppercase; }
.table-row { background: var(--surface); font-size: var(--font-sm); border-top: 1px solid var(--border); }
.table-row:nth-child(even) { background: #2b2b2b; }
.table-row:hover { background: var(--surface-2); }
.table-head span, .table-row span { padding: 0 8px; overflow: hidden; text-overflow: ellipsis; white-space: nowrap; }
.engine-table.route-table .table-head, .engine-table.route-table .table-row {
  grid-template-columns: minmax(0, 1.8fr) .8fr .5fr .5fr .9fr;
}
.strategy-table { margin-bottom: 10px; }
.strategy-table .table-head, .strategy-table .table-row {
  grid-template-columns: minmax(0, 1fr) minmax(0, 1.7fr) .7fr;
}
.config-diff-table { margin: 10px 0; }
.config-diff-table .table-head, .config-diff-table .table-row {
  grid-template-columns: minmax(0, .8fr) minmax(0, 1fr) minmax(0, 1fr) .55fr;
}
.fleet-table, .routing-table, .radio-table, .topology-table, .extension-table { margin-top: 10px; }
.fleet-table .table-head, .fleet-table .table-row {
  grid-template-columns: minmax(0, 1fr) minmax(0, 1.6fr) .7fr .9fr .8fr;
}
.routing-table .table-head, .routing-table .table-row,
.radio-table .table-head, .radio-table .table-row,
.topology-table .table-head, .topology-table .table-row {
  grid-template-columns: minmax(0, 1fr) minmax(0, 1fr) .65fr minmax(0, 1fr);
}
.extension-table .table-head, .extension-table .table-row {
  grid-template-columns: minmax(0, .8fr) minmax(0, .8fr) minmax(0, 1.7fr);
}
.log-table .table-head, .log-table .table-row,
.audit-table .table-head, .audit-table .table-row {
  grid-template-columns: .55fr minmax(0, 1fr) minmax(0, .9fr) minmax(0, 1.6fr);
}
.code-preview {
  width: 100%; min-height: 132px; resize: vertical; margin-top: 8px; padding: 10px;
  border: 1px solid var(--border); border-radius: 0; background: #1f1f1f;
  color: var(--text); font: 11px/1.45 var(--mono); white-space: pre; overflow: auto;
}
.code-preview.tall { min-height: 240px; }
.source-grid { display: grid; gap: 5px; margin-top: 10px; }
.source-row {
  display: grid; grid-template-columns: minmax(0, 1fr) auto; align-items: center; gap: 8px;
  min-height: 28px; border-bottom: 1px solid rgba(48, 57, 70, .75);
}
.mutation-grid { display: grid; grid-template-columns: repeat(auto-fit, minmax(min(260px, 100%), 1fr)); gap: 8px; margin-bottom: 10px; }
.mutation-card {
  min-width: 0; display: grid; grid-template-columns: repeat(2, minmax(0, 1fr)); gap: 8px;
  align-content: start; padding: 8px; border: 1px solid var(--border); border-radius: 0; background: var(--surface-2);
}
.mutation-card .preflight-panel { grid-column: 1 / -1; }
.mutation-history { display: grid; gap: 6px; }
.mutation-row {
  min-width: 0; display: grid; grid-template-columns: minmax(96px, .7fr) minmax(0, 1fr) auto minmax(0, 1.4fr);
  gap: 8px; align-items: center; min-height: 34px; padding: 6px 8px; border-bottom: 1px solid var(--border);
  border-radius: 0; background: transparent; font-size: var(--font-sm);
}
.mutation-row strong, .mutation-row span { min-width: 0; overflow: hidden; text-overflow: ellipsis; white-space: nowrap; }
.trust-workspace { display: grid; gap: var(--gap); align-items: start; }
.trust-main-grid {
  display: grid; grid-template-columns: repeat(2, minmax(0, 1fr)); gap: var(--gap); align-items: start;
}
.trust-main-grid.secondary { grid-template-columns: minmax(0, .9fr) minmax(320px, .65fr); }
.trust-status-grid { display: grid; grid-template-columns: repeat(4, minmax(0, 1fr)); gap: 8px; }
.trust-status-card {
  min-width: 0; display: grid; gap: 4px; padding: 10px; border: 1px solid var(--border); border-radius: 0;
  color: var(--text); text-align: left; background: var(--surface-2); box-shadow: inset 3px 0 0 var(--border-strong);
}
.trust-status-card:hover { border-color: var(--border-strong); background: var(--surface-3); }
.trust-status-card span { color: var(--muted); font-size: 10px; text-transform: uppercase; }
.trust-status-card strong { min-width: 0; font-size: 18px; overflow: hidden; text-overflow: ellipsis; white-space: nowrap; }
.trust-status-card small { min-width: 0; color: var(--faint); overflow: hidden; text-overflow: ellipsis; white-space: nowrap; }
.trust-status-card.good { box-shadow: inset 3px 0 0 var(--green); }
.trust-status-card.info { box-shadow: inset 3px 0 0 var(--accent); }
.trust-status-card.amber { box-shadow: inset 3px 0 0 var(--amber); }
.trust-status-card.bad { box-shadow: inset 3px 0 0 var(--red); }
.trust-chain-strip { display: grid; grid-template-columns: repeat(4, minmax(0, 1fr)); gap: 6px; margin-bottom: 10px; }
.chain-pill {
  min-width: 0; min-height: 46px; display: grid; align-content: center; gap: 2px; padding: 7px 8px;
  border: 1px solid var(--border); border-radius: 0; background: var(--surface-2);
}
.chain-pill span { color: var(--muted); font-size: 10px; text-transform: uppercase; }
.chain-pill strong { min-width: 0; overflow: hidden; text-overflow: ellipsis; white-space: nowrap; }
.chain-pill.good { border-color: rgba(103, 208, 141, .38); background: rgba(103, 208, 141, .08); }
.chain-pill.info { border-color: rgba(24, 170, 255, .38); background: rgba(24, 170, 255, .07); }
.chain-pill.amber { border-color: rgba(229, 184, 92, .38); background: rgba(229, 184, 92, .08); }
.chain-pill.bad { border-color: rgba(255, 127, 135, .45); background: rgba(255, 127, 135, .08); }
.split-list { display: grid; grid-template-columns: repeat(2, minmax(0, 1fr)); gap: 8px; margin-bottom: 10px; }
.compact-stack { display: grid; gap: 6px; }
.trust-compact-row {
  min-width: 0; display: grid; grid-template-columns: minmax(0, 1fr) auto; gap: 8px; align-items: center;
  min-height: 34px; padding: 6px 8px; border-bottom: 1px solid var(--border); border-radius: 0;
  background: transparent; font-size: var(--font-sm);
}
.trust-compact-row.with-sub { grid-template-columns: minmax(0, 1fr) auto auto; }
.trust-compact-row strong, .trust-compact-row span { min-width: 0; overflow: hidden; text-overflow: ellipsis; white-space: nowrap; }
.trust-action-row, .active-identity-card, .trace-summary {
  min-width: 0; display: grid; grid-template-columns: auto minmax(0, 1fr) auto; gap: 8px; align-items: center;
  min-height: 40px; padding: 8px; border: 1px solid rgba(15, 98, 254, .55); border-radius: 0;
  background: rgba(15, 98, 254, .08); margin-bottom: 10px;
}
.active-identity-card { grid-template-columns: minmax(0, 1fr) auto; }
.trace-summary { grid-template-columns: minmax(0, 1fr) auto; }
.active-identity-card div { min-width: 0; display: grid; gap: 2px; }
.active-identity-card span { color: var(--muted); font-size: 10px; text-transform: uppercase; }
.active-identity-card strong, .trust-action-row span, .trace-summary strong { min-width: 0; overflow: hidden; text-overflow: ellipsis; white-space: nowrap; }
.trust-command-row {
  display: flex; flex-wrap: wrap; gap: 6px; align-items: center; margin-top: 10px;
}
.modal-backdrop {
  position: fixed; inset: 0; z-index: 20; display: grid; place-items: center; padding: 22px;
  background: rgba(3, 6, 9, .72); backdrop-filter: blur(8px);
}
.trust-modal {
  width: min(1080px, 100%); max-height: min(760px, calc(100vh - 44px)); display: grid; grid-template-rows: auto minmax(0, 1fr);
  border: 1px solid var(--border-strong); border-radius: 0; background: var(--surface); box-shadow: 0 24px 70px rgba(0, 0, 0, .58);
}
.modal-head {
  display: grid; grid-template-columns: minmax(0, 1fr) auto; align-items: center; gap: 12px;
  min-height: 54px; padding: 10px 12px; border-bottom: 1px solid var(--border);
}
.modal-head div { min-width: 0; display: grid; gap: 2px; }
.modal-head span { color: var(--muted); font-size: 10px; text-transform: uppercase; }
.modal-head strong { min-width: 0; font-size: 18px; overflow: hidden; text-overflow: ellipsis; white-space: nowrap; }
.modal-close {
  min-height: 30px; border-radius: 0; border: 1px solid var(--border); background: transparent;
  color: var(--muted); padding: 4px 10px; font-size: var(--font-xs);
}
.modal-close:hover { color: var(--text); border-color: var(--border-strong); background: var(--surface-3); }
.modal-body { min-height: 0; overflow: auto; padding: 12px; }
.trust-modal-stack, .modal-section { min-width: 0; display: grid; gap: 10px; align-content: start; }
.modal-section-grid { display: grid; grid-template-columns: repeat(2, minmax(0, 1fr)); gap: 10px; }
.modal-section-grid .wide { grid-column: 1 / -1; }
.modal-kv-grid { display: grid; grid-template-columns: repeat(2, minmax(0, 1fr)); gap: 8px; }
.modal-action-row { display: flex; flex-wrap: wrap; gap: 8px; align-items: center; }
.router-modal { max-width: min(1120px, calc(100vw - 28px)); }
.router-tab-row {
  display: flex; gap: 6px; overflow-x: auto; padding: 10px 12px; border-bottom: 1px solid var(--border);
}
.router-modal-body { padding-bottom: 4px; }
.router-preview { min-height: 280px; }
.router-modal-actions {
  justify-content: flex-end; padding: 10px 12px 12px; border-top: 1px solid var(--border);
}
.preset-grid { display: grid; grid-template-columns: repeat(auto-fit, minmax(min(280px, 100%), 1fr)); gap: 8px; }
.preset-card {
  width: 100%; color: inherit; text-align: left; cursor: pointer;
}
.preset-card:hover { border-color: var(--accent); background: rgba(24, 170, 255, .08); }
.preflight-panel {
  display: grid; gap: 7px; padding: 9px; border: 1px solid rgba(15, 98, 254, .55);
  border-radius: 0; background: rgba(15, 98, 254, .08);
}
.preflight-head {
  display: grid; grid-template-columns: minmax(0, 1fr) auto; gap: 8px; align-items: center;
}
.preflight-head strong { min-width: 0; overflow: hidden; text-overflow: ellipsis; white-space: nowrap; }
.preflight-summary { color: var(--muted); font-size: var(--font-xs); }
.preflight-checks { display: grid; gap: 5px; }
.preflight-check {
  min-width: 0; display: grid; grid-template-columns: 90px minmax(0, 1fr); gap: 8px; align-items: center;
  min-height: 28px; padding: 5px 7px; border-bottom: 1px solid var(--border); border-radius: 0; background: transparent;
  font-size: var(--font-xs);
}
.preflight-check span { color: var(--muted); text-transform: uppercase; }
.preflight-check strong { min-width: 0; overflow: hidden; text-overflow: ellipsis; white-space: nowrap; }
.preflight-check.passed { box-shadow: inset 3px 0 0 var(--green); }
.preflight-check.failed { box-shadow: inset 3px 0 0 var(--red); }
.preflight-note {
  min-height: 32px; display: grid; align-items: center; padding: 7px 8px;
  border: 1px solid rgba(241, 194, 27, .65); border-radius: 0;
  background: rgba(241, 194, 27, .08); color: var(--amber); font-size: var(--font-sm);
}
.trust-modal-table { display: grid; gap: 5px; }
.trust-modal-row {
  min-width: 0; display: grid; gap: 8px; align-items: center; min-height: 34px;
  padding: 6px 8px; border-bottom: 1px solid var(--border); border-radius: 0; background: transparent;
  font-size: var(--font-sm);
}
.trust-modal-table.cols-3 .trust-modal-row { grid-template-columns: minmax(0, 1.2fr) minmax(0, 1fr) auto; }
.trust-modal-table.cols-4 .trust-modal-row { grid-template-columns: minmax(0, 1.3fr) minmax(0, 1fr) minmax(0, .65fr) auto; }
.trust-modal-row strong, .trust-modal-row span { min-width: 0; overflow: hidden; text-overflow: ellipsis; white-space: nowrap; }
.trust-list { display: grid; gap: 6px; margin-bottom: 10px; }
.trust-row, .approval-row, .schema-review-row {
  min-width: 0; display: grid; grid-template-columns: minmax(0, 1fr) auto; gap: 8px; align-items: center;
  min-height: var(--row); padding: 7px 0; border-bottom: 1px solid var(--border); border-radius: 0;
  background: transparent; font-size: var(--font-sm);
}
.trust-row > div, .approval-row > div, .schema-review-row > div { min-width: 0; display: grid; gap: 2px; }
.trust-flow-card {
  display: grid; gap: 6px; align-content: start; min-width: 0; padding: 9px;
  border: 1px solid var(--border); border-radius: 0; background: var(--surface-2);
}
.primary-flow { border-color: rgba(15, 98, 254, .55); background: rgba(15, 98, 254, .08); margin-bottom: 10px; }
.lane-section, .evidence-block { min-width: 0; display: grid; gap: 6px; }
.evidence-subtitle { margin-top: 10px; }
.validation-frame, .did-frame-list { display: grid; gap: 8px; margin-bottom: 10px; }
.custody-alert, .safebag-preview {
  display: grid; gap: 4px; margin-bottom: 10px; padding: 8px; border: 1px solid rgba(15, 98, 254, .55);
  border-radius: 0; background: rgba(15, 98, 254, .08); font-size: var(--font-sm);
}
.custody-alert strong, .safebag-preview strong { color: var(--accent); }
.identity-table, .schema-table { margin-bottom: 10px; }
.identity-table .table-head, .identity-table .table-row,
.schema-table .table-head, .schema-table .table-row {
  grid-template-columns: minmax(0, 1.4fr) minmax(0, .9fr) minmax(0, .75fr) minmax(92px, .55fr);
}
.engine-detail { margin-top: 8px; border-top: 1px solid var(--border); padding-top: 8px; }
.tool-actions { align-items: stretch; }
.tool-button { text-transform: none; }
.inline-button { min-height: 24px; padding: 2px 7px; }
.action-button { white-space: nowrap; word-break: keep-all; min-width: max-content; }
.tool-tabbar { display: flex; gap: 5px; flex-wrap: wrap; margin-bottom: 8px; }
.tool-tab {
  min-height: 30px; border: 1px solid var(--border); border-radius: 0; background: transparent;
  color: var(--muted); padding: 4px 10px; font-size: var(--font-xs);
}
.tool-tab.active {
  color: #ffffff; border-color: var(--accent); background: var(--accent);
  box-shadow: inset 0 -2px 0 var(--accent);
}
.tool-form-grid { display: grid; grid-template-columns: minmax(0, 1fr); gap: 8px; margin-bottom: 10px; }
.tool-card {
  min-width: 0; display: grid; grid-template-columns: repeat(2, minmax(0, 1fr)); gap: 7px;
  align-content: start; border: 1px solid var(--border); border-radius: 0; background: var(--surface-2); padding: 8px;
}
.active-tool-card { max-width: 760px; }
.tool-card-hidden { display: none; }
.tool-card-title {
  grid-column: 1 / -1; color: var(--accent); font-size: 10px; font-weight: 800; text-transform: uppercase;
}
.tool-field { min-width: 0; display: grid; gap: 3px; color: var(--muted); font-size: 10px; text-transform: uppercase; }
.tool-field input, .tool-field select, .tool-field textarea {
  min-width: 0; width: 100%; border-radius: 0; border: 1px solid transparent; border-bottom-color: var(--border-strong);
  background: var(--field); color: var(--text); padding: 5px 7px; font-size: var(--font-sm); text-transform: none;
}
.tool-field input:focus, .tool-field select:focus, .tool-field textarea:focus { border-bottom-color: var(--accent-2); outline: 1px solid var(--accent-2); }
.tool-field textarea { min-height: 58px; resize: vertical; font-family: "SF Mono", Consolas, ui-monospace, monospace; }
.tool-check {
  min-width: 0; min-height: 30px; display: flex; align-items: center; gap: 6px; color: var(--muted);
  font-size: var(--font-xs); text-transform: none;
}
.tool-check input { margin: 0; }
.span-2 { grid-column: 1 / -1; }
.results-toolbar {
  display: grid; grid-template-columns: minmax(180px, 1fr) auto auto; gap: 6px; align-items: center; margin-bottom: 8px;
}
.results-toolbar input {
  min-width: 0; min-height: 30px; border-radius: 6px; border: 1px solid var(--border);
  background: var(--surface-2); color: var(--text); padding: 5px 8px; font-size: var(--font-sm);
}
.tools-table .table-head, .tools-table .table-row {
  grid-template-columns: 44px minmax(64px, .55fr) minmax(0, 1.25fr) minmax(98px, .7fr) minmax(0, 2.35fr) 72px;
}
.tools-table .table-row { align-items: start; min-height: auto; }
.tools-table .table-head > span, .tools-table .table-row > span {
  min-width: 0; padding: 7px 8px; white-space: normal; overflow: visible; text-overflow: clip; overflow-wrap: anywhere;
}
.tools-table .table-head > span { white-space: nowrap; overflow: hidden; text-overflow: ellipsis; }
.tools-table .table-row > span:last-child { white-space: nowrap; overflow: visible; }
.tools-table .status-cell { display: flex; align-items: center; gap: 6px; }
.tools-table .chip { padding: 2px 8px; overflow: visible; text-overflow: clip; }
.error-row { box-shadow: inset 3px 0 0 var(--red); background: rgba(255, 127, 135, .07); }
.result-cell { line-height: 1.35; color: var(--text); }
.tool-error-banner, .tool-error-detail {
  display: grid; gap: 3px; margin-bottom: 8px; border: 1px solid rgba(255, 127, 135, .44);
  border-radius: 6px; background: rgba(255, 127, 135, .09); color: var(--red); padding: 7px 8px;
  font-size: var(--font-xs);
}
.tool-error-banner span, .tool-error-detail span { color: var(--text); overflow-wrap: anywhere; }
.tool-detail-panel { min-width: 0; }
.tool-detail-rail {
  display: grid; justify-items: center; align-content: start; gap: 7px; padding: 8px 6px;
}
.rail-toggle, .rail-icon {
  width: 34px; min-height: 30px; border: 1px solid var(--border); border-radius: 6px;
  background: var(--surface-raised); color: var(--muted); font-size: 10px; font-weight: 800;
}
.panel-title-row .action-button, .sample-card-head .action-button {
  width: 28px; min-width: 28px; min-height: 26px; display: grid; place-items: center; padding: 0;
}
.rail-toggle:hover, .rail-icon:hover { border-color: var(--border-strong); color: var(--accent); background: var(--surface-3); }
.rail-icon.error { color: var(--red); border-color: rgba(255, 127, 135, .52); background: rgba(255, 127, 135, .08); }
.sparkline {
  min-height: 34px; display: flex; align-items: end; gap: 3px; padding: 6px 8px;
  border: 1px solid rgba(24, 170, 255, .28); border-radius: 6px; background: rgba(24, 170, 255, .06);
}
.sparkline span {
  width: 7px; min-height: 2px; border-radius: 2px 2px 0 0;
  background: linear-gradient(180deg, var(--accent-2), var(--accent));
  box-shadow: 0 0 8px rgba(24, 170, 255, .28);
}
.tool-input {
  min-height: 30px; min-width: 210px; border-radius: 6px; border: 1px solid var(--border);
  background: var(--surface-2); color: var(--text); padding: 5px 8px; font-size: var(--font-sm);
}
.server-controls { display: grid; gap: 5px; margin-bottom: 10px; }
.server-control {
  display: grid; grid-template-columns: minmax(0, .8fr) minmax(0, 1.6fr); gap: 8px; align-items: center;
  min-height: 30px; padding: 5px 8px; border: 1px solid var(--border); border-radius: 6px;
  background: var(--surface-2); font-size: var(--font-xs);
}
.server-control span, .server-control strong { min-width: 0; overflow: hidden; text-overflow: ellipsis; white-space: nowrap; }
.server-control span { color: var(--muted); }
.compact-actions { margin: 6px 0 0; }
.trace-ref-row { display: flex; flex-wrap: wrap; gap: 5px; margin-top: 6px; }
.inline-alert {
  margin-bottom: 10px; border: 1px solid rgba(250, 77, 86, .65); border-radius: 0;
  background: rgba(250, 77, 86, .08); color: var(--red); padding: 8px 10px; font-size: var(--font-sm);
}
.target-list { display: grid; gap: 0; border-top: 1px solid var(--border); }
.target-list.compact { gap: 0; }
.target-row {
  min-width: 0; display: grid; grid-template-columns: minmax(0, 1fr) auto; gap: 8px; align-items: center;
  border: 0; border-bottom: 1px solid var(--border); border-radius: 0; background: transparent; padding: 8px 0;
}
.target-row.active { box-shadow: inset 3px 0 0 var(--accent); padding-left: 8px; }
.target-main {
  min-width: 0; display: grid; gap: 3px; border: 0; background: transparent; color: var(--text); text-align: left; padding: 2px;
}
.target-meta { display: flex; flex-wrap: wrap; gap: 8px; color: var(--muted); font-size: var(--font-xs); }
.target-badges { display: flex; gap: 5px; flex-wrap: wrap; justify-content: flex-end; }
.recent-target {
  display: grid; grid-template-columns: minmax(0, 1fr) auto; gap: 8px; align-items: center;
  min-height: var(--row); border-bottom: 1px solid var(--border); padding: 3px 0;
}
.capability-matrix {
  display: grid; border: 1px solid var(--border); border-radius: 0; overflow: hidden; margin-bottom: 10px;
}
.matrix-head, .matrix-row {
  display: grid; grid-template-columns: minmax(120px, .85fr) minmax(90px, .55fr) minmax(180px, 1fr) minmax(180px, 1.25fr);
  align-items: center;
}
.matrix-head { min-height: 30px; background: #1f1f1f; color: var(--muted); font-size: 10px; text-transform: uppercase; }
.matrix-row { min-height: var(--row); background: var(--surface); border-top: 1px solid var(--border); font-size: var(--font-sm); }
.matrix-head span, .matrix-row span { min-width: 0; padding: 6px 8px; overflow-wrap: anywhere; }
.probe-outcome { color: var(--accent); font-family: inherit; font-size: var(--font-xs); }
.probe-time { color: var(--faint); font-family: inherit; font-size: var(--font-xs); }
.empty-state {
  min-height: 120px; display: grid; align-content: center; gap: 6px; color: var(--muted);
  border: 1px dashed var(--border-strong); border-radius: 0; padding: 14px; font-size: var(--font-sm);
}
.empty-state strong { color: var(--text); }
.bottom-nav { display: none; }

@media (max-width: 1240px) {
  .operator-band, .operations-board { grid-template-columns: 1fr; }
  .ops-command-surface { grid-template-columns: minmax(0, 1fr); }
  .operator-actions, .inline-actions { justify-content: flex-start; }
}

@media (max-width: 980px) {
  .app-shell, .app-shell.nav-collapsed { grid-template-columns: 1fr; padding-bottom: 56px; }
  .sidebar { display: none; }
  .operations-grid > .panel:first-child, .operations-grid > .panel:nth-child(4) { grid-column: auto; }
  .operator-compact, .ops-disclosure-grid, .operations-board { grid-template-columns: 1fr; }
  .view-grid, .operations-grid, .observe-grid, .engine-grid, .tools-grid, .tools-grid-collapsed { grid-template-columns: 1fr; }
  .trust-main-grid, .trust-main-grid.secondary { grid-template-columns: 1fr; }
  .trust-status-grid { grid-template-columns: repeat(2, minmax(0, 1fr)); }
  .modal-section-grid, .modal-kv-grid { grid-template-columns: 1fr; }
  .settings-grid { grid-template-columns: 1fr; }
  .tool-detail-rail {
    position: fixed; right: 10px; bottom: 66px; z-index: 4; width: auto; min-width: 0;
    padding: 6px; border-radius: 10px; box-shadow: 0 10px 24px var(--shadow);
  }
  .tool-detail-rail .rail-toggle, .tool-detail-rail .rail-icon { width: 32px; min-height: 30px; }
  .bottom-nav {
    position: fixed; left: 0; right: 0; bottom: 0; z-index: 3; display: grid; grid-template-columns: repeat(6, 1fr);
    border-top: 1px solid var(--border); background: rgba(22, 22, 22, 0.98); padding: 0;
  }
  .bottom-item { text-align: center; padding: 8px 2px; font-size: 11px; min-height: 48px; }
  .bottom-item.active { border-left: 0; box-shadow: inset 0 3px 0 var(--accent); }
}

@media (max-width: 640px) {
  .attach-bar { align-items: stretch; flex-direction: column; gap: 7px; padding-top: 8px; padding-bottom: 8px; }
  .chip-row { justify-content: flex-start; }
  .operator-band { padding: 0; }
  .operator-line { grid-template-columns: auto 58px minmax(0, 1fr); }
  .operator-popover-body { left: 0; right: auto; }
  .operator-status { grid-template-columns: 1fr; gap: 5px; }
  .operator-actions { display: grid; grid-template-columns: repeat(2, minmax(0, 1fr)); }
  .operator-actions .tool-button { min-width: 0; }
  .operator-message { align-items: flex-start; flex-direction: column; gap: 3px; }
  .workspace { padding: 8px; }
  .panel { border-radius: 0; }
  .panel > :not(.panel-title):not(.panel-title-row) { margin-left: 10px; margin-right: 10px; }
  .panel-title { padding: 0 10px; }
  .summary-grid { grid-template-columns: repeat(2, minmax(0, 1fr)); }
  .ops-capability-meter { grid-template-columns: repeat(2, minmax(0, 1fr)); }
  .ops-status-strip { grid-template-columns: repeat(3, minmax(0, 1fr)); }
  .capability-line { grid-template-columns: 1fr; align-items: start; padding: 8px 0; }
  .lifecycle-row { grid-template-columns: auto minmax(0, 1fr) auto; }
  .trace-row { grid-template-columns: 1fr 1fr; }
  .bridge-status { align-items: flex-start; flex-direction: column; }
  .log-row { grid-template-columns: 1fr; }
  .server-control { grid-template-columns: 1fr; }
  .pit-row { grid-template-columns: 1fr; }
  .span-node { grid-template-columns: 1fr; }
  .stage-strip { grid-template-columns: repeat(2, minmax(0, 1fr)); }
  .metrics-grid { grid-template-columns: repeat(2, minmax(0, 1fr)); }
  .mutation-grid { grid-template-columns: 1fr; }
  .mutation-row { grid-template-columns: 1fr; align-items: start; }
  .trust-chain-strip, .split-list { grid-template-columns: 1fr; }
  .trust-action-row, .trace-summary { grid-template-columns: 1fr auto; }
  .trust-action-row span { grid-column: 1 / -1; }
  .modal-backdrop { align-items: stretch; padding: 8px; }
  .trust-modal { max-height: calc(100vh - 16px); }
  .preflight-check { grid-template-columns: 1fr; align-items: start; }
  .trust-modal-table.cols-3 .trust-modal-row,
  .trust-modal-table.cols-4 .trust-modal-row { grid-template-columns: 1fr; align-items: start; }
  .modal-action-row .tool-button { flex: 1 1 140px; }
  .tool-form-grid { grid-template-columns: 1fr; }
  .tool-card { grid-template-columns: 1fr 1fr; }
  .active-tool-card { max-width: none; }
  .results-toolbar { grid-template-columns: 1fr 1fr; }
  .results-toolbar input { grid-column: 1 / -1; }
  .table-head, .table-row { grid-template-columns: .7fr minmax(0, 1.6fr) .8fr .9fr; }
  .table-head span, .table-row span { padding: 0 5px; }
  .tools-table .table-head { display: none; }
  .tools-table .table-row { grid-template-columns: 1fr; padding: 6px; gap: 3px; }
  .tools-table .table-row > span { padding: 1px 0; }
  .tools-table .table-row > span::before {
    display: inline-block; min-width: 54px; margin-right: 6px; color: var(--faint); font-size: 10px; text-transform: uppercase;
  }
  .tools-table .status-cell { display: flex; align-items: center; gap: 6px; }
  .tools-table .status-cell::before { flex: 0 0 54px; margin-right: 0; }
  .tools-table .status-cell .chip { min-height: 22px; max-width: calc(100% - 60px); overflow: hidden; text-overflow: ellipsis; }
  .tools-table .table-row > span:nth-child(1)::before { content: "Sel"; }
  .tools-table .table-row > span:nth-child(2)::before { content: "Tool"; }
  .tools-table .table-row > span:nth-child(3)::before { content: "Target"; }
  .tools-table .table-row > span:nth-child(4)::before { content: "Status"; }
  .tools-table .table-row > span:nth-child(5)::before { content: "Result"; }
  .tools-table .table-row > span:nth-child(6)::before { content: "Open"; }
  .engine-table.route-table .table-head, .engine-table.route-table .table-row,
  .strategy-table .table-head, .strategy-table .table-row,
  .identity-table .table-head, .identity-table .table-row,
  .schema-table .table-head, .schema-table .table-row { grid-template-columns: 1fr; }
  .trust-row, .approval-row, .schema-review-row { grid-template-columns: 1fr; align-items: start; }
  .target-row { grid-template-columns: 1fr; }
  .target-badges { justify-content: flex-start; }
  .matrix-head { display: none; }
  .matrix-row { grid-template-columns: 1fr; gap: 2px; padding: 6px; }
  .matrix-row span { padding: 2px 0; }
  .evidence-table .table-head { display: none; }
  .evidence-table .table-row { grid-template-columns: 1fr; padding: 6px; gap: 2px; }
  .evidence-table .table-row span { padding: 2px 0; }
}

@media (prefers-reduced-motion: reduce) {
  *, *::before, *::after {
    scroll-behavior: auto !important;
    transition-duration: .001ms !important;
    animation-duration: .001ms !important;
    animation-iteration-count: 1 !important;
  }
}
