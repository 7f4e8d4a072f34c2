//! The web inbox.

use vstd::prelude::*;

verus! {

/// The page of the web inbox.
pub const INDEX_HTML: &'static str = r##"<!doctype html>
<html lang="en">
<head>
<meta charset="utf-8">
<meta name="viewport" content="width=device-width, initial-scale=1">
<title>fake-sms-server inbox</title>
<script src="/htmx.min.js"></script>
<style>
:root { color-scheme: light dark; }
* { box-sizing: border-box; }
body { font-family: system-ui, -apple-system, sans-serif; font-size: 13px; margin: 0; background: light-dark(#f1f2f4, #141518); color: light-dark(#1c1e21, #e4e5e7); }
.topbar { background: #23272f; color: #e4e5e7; padding: .45rem 1rem; display: flex; align-items: center; gap: .6rem; }
.topbar h1 { margin: 0; font-size: .95rem; font-weight: 600; }
.dot { width: 8px; height: 8px; border-radius: 50%; background: #37bf5d; display: inline-block; }
.topbar #stats { color: #b9bdc4; font-size: .8rem; }
.topbar #stats strong { color: #fff; }
main { max-width: 1020px; margin: 0 auto; padding: .8rem 1rem 2rem; }
.panel { background: light-dark(#fff, #1d1f24); border: 1px solid light-dark(#d7dae0, #33363d); border-radius: 6px; overflow: hidden; }
.toolbar { display: flex; gap: .5rem; padding: .5rem .6rem; border-bottom: 1px solid light-dark(#d7dae0, #33363d); background: light-dark(#f7f8fa, #22242a); flex-wrap: wrap; align-items: center; }
input[type=search], select { font: inherit; font-size: 12px; padding: .3rem .5rem; border: 1px solid light-dark(#c3c7cf, #44474f); border-radius: 4px; background: light-dark(#fff, #141518); color: inherit; }
input[type=search] { flex: 1; min-width: 180px; }
button { font: inherit; font-size: 12px; padding: .3rem .7rem; border-radius: 4px; border: 1px solid light-dark(#c3c7cf, #44474f); background: light-dark(#fff, #26282e); color: inherit; cursor: pointer; }
button:hover { background: light-dark(#eef0f3, #2e3138); }
button[aria-pressed=true] { border-color: #e0a100; color: light-dark(#8a5f00, #ffd75e); }
button.danger { border-color: #c0392b; color: #e05244; background: none; }
button.danger:hover { background: rgba(224,82,68,.1); }
#sync { font-size: 11px; color: #888; opacity: 0; transition: opacity .2s; }
#sync.htmx-request { opacity: 1; }
table { border-collapse: collapse; width: 100%; }
th { text-align: left; font-size: 11px; text-transform: uppercase; letter-spacing: .04em; color: #888; padding: .35rem .6rem; border-bottom: 1px solid light-dark(#d7dae0, #33363d); }
td { padding: .35rem .6rem; border-bottom: 1px solid light-dark(#e8eaee, #2a2d33); vertical-align: top; }
tbody tr:last-child td { border-bottom: none; }
tbody tr:hover td { background: light-dark(#f4f7fb, #23262c); }
td.mono, .meta { font-family: ui-monospace, SFMono-Regular, Menlo, monospace; font-size: 12px; }
td.at { white-space: nowrap; }
td.empty { text-align: center; color: #888; padding: 2.2rem 1rem; }
details summary { cursor: pointer; color: #888; font-size: 11px; }
.full { white-space: pre-wrap; margin-top: .35rem; }
.meta { color: #888; font-size: 11px; margin-top: .35rem; }
.badge { font-size: 11px; padding: .05rem .4rem; border-radius: 10px; white-space: nowrap; font-weight: 600; }
.badge.twilio { background: light-dark(#dff0e0, #1d4d22); color: light-dark(#14501c, #c8f0cc); }
.badge.custom { background: light-dark(#dde8f5, #1e3a5f); color: light-dark(#16406e, #c4dcf5); }
.footer { display: flex; justify-content: space-between; align-items: center; margin-top: .6rem; color: #888; font-size: 11px; flex-wrap: wrap; gap: .5rem; }
.footer code { font-family: ui-monospace, monospace; }
</style>
</head>
<body>
<div class="topbar">
<span class="dot" title="live"></span>
<h1>fake-sms-server</h1>
<div id="stats" hx-get="/stats" hx-trigger="load, every 3s" hx-swap="innerHTML">…</div>
</div>
<main>
<div class="panel">
<div class="toolbar">
<form id="filters" hx-get="/rows" hx-target="#rows" hx-swap="innerHTML" hx-indicator="#sync"
      hx-trigger="load, every 3s, keyup changed delay:300ms from:#q, change from:#provider"
      style="display:contents">
<input id="q" name="q" type="search" placeholder="Search to / from / body…" autocomplete="off">
<select id="provider" name="provider" aria-label="Provider filter">
<option value="">All providers</option>
<option value="twilio">twilio</option>
<option value="custom">custom</option>
</select>
</form>
<span id="sync">sync…</span>
<button id="livebtn" type="button" aria-pressed="false" onclick="toggleLive(this)">Pause live</button>
<button type="button" class="danger" hx-post="/clear" hx-confirm="Delete all messages?" hx-target="#rows" hx-swap="innerHTML">Clear</button>
</div>
<table>
<thead><tr><th>To</th><th>From</th><th>Body</th><th>Via</th><th>At</th></tr></thead>
<tbody id="rows"></tbody>
</table>
</div>
<div class="footer">
<span>Ephemeral — restarts wipe the inbox.</span>
<span>Twilio shape: <code>POST /2010-04-01/Accounts/:sid/Messages.json</code></span>
</div>
</main>
<script>
// Preserve expanded rows across polls: the 3s refresh re-renders the
// tbody, which would otherwise snap every open disclosure shut.
const openRows = new Set();
document.body.addEventListener('toggle', (e) => {
  const d = e.target.closest ? e.target.closest('details[data-sid]') : null;
  if (!d) return;
  if (d.open) openRows.add(d.dataset.sid); else openRows.delete(d.dataset.sid);
}, true);
document.body.addEventListener('htmx:afterSwap', (e) => {
  if (e.target.id !== 'rows') return;
  e.target.querySelectorAll('details[data-sid]').forEach((d) => {
    if (openRows.has(d.dataset.sid)) d.open = true;
  });
});
// Pause/resume the poller by swapping its trigger (htmx.process re-binds).
function toggleLive(btn) {
  const form = document.getElementById('filters');
  if (!form.dataset.poll) form.dataset.poll = form.getAttribute('hx-trigger');
  const paused = btn.getAttribute('aria-pressed') === 'true' ? false : true;
  btn.setAttribute('aria-pressed', paused ? 'true' : 'false');
  btn.textContent = paused ? 'Resume live' : 'Pause live';
  form.setAttribute('hx-trigger', paused ? 'none' : form.dataset.poll);
  htmx.process(form);
}
</script>
</body>
</html>"##;

/// The page of the web inbox.
pub fn index() -> (page: &'static str)
    ensures
        page@ == INDEX_HTML@,
{
    INDEX_HTML
}

} // verus!
