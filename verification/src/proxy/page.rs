//! The pages that the proxy makes: the controls put into the game's page, and the page
//! shown while the machine is not running.

use crate::text::{contains_text, has_prefix, last_occurrence, occurs_at, rfind, utf8_text};
use vstd::prelude::*;
use vstd::utf8::{
    decode_utf8, encode_utf8, encode_utf8_decode_utf8, encode_utf8_valid_utf8, valid_utf8,
};

verus! {

/// The page shown in place of the game while the machine is not running.
pub const CONTROL_ONLY_PAGE: &'static str = r##"<!doctype html><html><head><meta charset="utf-8">
<meta name="viewport" content="width=device-width,initial-scale=1,viewport-fit=cover">
<title>Hellbox — paused</title>
<style>
:root{--bg:#0A0B0D;--text:#ECE8DF;--muted:#8B919B;--muted2:#7E848E;
  --ember:#FF6B1A;--ember2:#FF8A3D;--green:#57C77E;--amber:#FFB020;--hairline:#23272E;
  --font-ui:-apple-system,BlinkMacSystemFont,"Segoe UI",system-ui,Roboto,sans-serif;
  --font-mono:ui-monospace,"SF Mono","JetBrains Mono",Menlo,Consolas,monospace}
*{box-sizing:border-box}
html,body{margin:0;height:100%}
body{display:flex;flex-direction:column;align-items:center;justify-content:center;gap:20px;
  background:radial-gradient(80% 60% at 50% 42%,rgba(255,107,26,.06) 0%,rgba(0,0,0,0) 60%),var(--bg);
  color:var(--text);font-family:var(--font-ui)}
.brand{position:fixed;top:20px;left:24px;display:flex;align-items:center;gap:12px}
.mark{display:flex;align-items:center;justify-content:center;width:34px;height:34px;flex-shrink:0}
.word{display:flex;align-items:baseline;gap:1px;font-size:16px;letter-spacing:.01em}
.word .dim{font-weight:600;color:#9CA1AB}.word .strong{font-weight:900;color:var(--text)}
.badge{display:flex;align-items:center;justify-content:center;width:64px;height:64px;border-radius:16px;
  background:#101216;border:1px solid var(--hairline);box-shadow:0 12px 40px rgba(0,0,0,.5)}
.chip{display:flex;align-items:center;gap:9px;height:30px;padding:0 13px;border-radius:8px;
  background:#0E1014;border:1px solid #20242B}
#dot{width:8px;height:8px;border-radius:50%;background:var(--amber)}
#status{font-family:var(--font-mono);font-weight:500;font-size:12px;color:#9AA0AA}
#head{margin:0;font-weight:700;font-size:26px;letter-spacing:-.01em}
#sub{margin:0;max-width:440px;text-align:center;color:var(--muted);font-size:14px;line-height:20px}
#btn{display:flex;align-items:center;gap:9px;height:46px;padding:0 24px;border:0;border-radius:11px;
  font-family:var(--font-ui);font-weight:700;font-size:15px;letter-spacing:.01em;color:#1A0E06;cursor:pointer;
  background:linear-gradient(180deg,var(--ember2),var(--ember));
  box-shadow:0 0 0 1px rgba(255,138,61,.4),0 10px 28px rgba(255,107,26,.36)}
#btn:disabled{opacity:.55;cursor:default;box-shadow:none}
.note{display:flex;align-items:center;gap:8px;font-family:var(--font-mono);font-size:12px;color:var(--muted2)}
.mark svg{display:block}
.hbf{opacity:0}
.hbf1{animation:hbf1 .72s steps(1) infinite}.hbf2{animation:hbf2 .72s steps(1) infinite}.hbf3{animation:hbf3 .72s steps(1) infinite}
@keyframes hbf1{0%,33.3%{opacity:1}33.4%,100%{opacity:0}}
@keyframes hbf2{0%,33.3%{opacity:0}33.4%,66.6%{opacity:1}66.7%,100%{opacity:0}}
@keyframes hbf3{0%,66.6%{opacity:0}66.7%,100%{opacity:1}}
.hbe{opacity:0;animation:hbe 2.1s linear infinite}.hbe.d2{animation-delay:.7s}.hbe.d3{animation-delay:1.4s}
@keyframes hbe{0%{opacity:0;transform:translateY(0)}12%{opacity:1}70%{opacity:.85}88%,100%{opacity:0;transform:translateY(-9px)}}
@media (prefers-reduced-motion:reduce){.hbf1{animation:none;opacity:1}.hbf2,.hbf3,.hbe{animation:none;opacity:0}}
</style></head>
<body>
  <div class="brand"><div class="mark"><svg width="30" height="39" viewBox="0 0 140 180" fill="none" xmlns="http://www.w3.org/2000/svg"><g class="hbf hbf1"><rect x="66" y="8" width="8" height="8" fill="#FF6B1A"/><rect x="66" y="16" width="8" height="8" fill="#FF6B1A"/><rect x="58" y="24" width="8" height="8" fill="#FF6B1A"/><rect x="66" y="24" width="8" height="8" fill="#FF8A3D"/><rect x="58" y="32" width="8" height="8" fill="#FF6B1A"/><rect x="66" y="32" width="8" height="8" fill="#FF8A3D"/><rect x="50" y="40" width="8" height="8" fill="#FF6B1A"/><rect x="58" y="40" width="8" height="8" fill="#FF8A3D"/><rect x="66" y="40" width="8" height="8" fill="#FF8A3D"/><rect x="42" y="48" width="8" height="8" fill="#FF6B1A"/><rect x="50" y="48" width="8" height="8" fill="#FF8A3D"/><rect x="58" y="48" width="8" height="8" fill="#FF8A3D"/><rect x="66" y="48" width="8" height="8" fill="#FFD23D"/><rect x="74" y="48" width="8" height="8" fill="#FF8A3D"/><rect x="82" y="48" width="8" height="8" fill="#FF6B1A"/><rect x="90" y="48" width="8" height="8" fill="#FF6B1A"/><rect x="42" y="56" width="8" height="8" fill="#FF6B1A"/><rect x="50" y="56" width="8" height="8" fill="#FF8A3D"/><rect x="58" y="56" width="8" height="8" fill="#FFD23D"/><rect x="66" y="56" width="8" height="8" fill="#FFD23D"/><rect x="74" y="56" width="8" height="8" fill="#FF8A3D"/><rect x="82" y="56" width="8" height="8" fill="#FF8A3D"/><rect x="90" y="56" width="8" height="8" fill="#FF6B1A"/><rect x="34" y="64" width="8" height="8" fill="#FF6B1A"/><rect x="42" y="64" width="8" height="8" fill="#FF8A3D"/><rect x="50" y="64" width="8" height="8" fill="#FFD23D"/><rect x="58" y="64" width="8" height="8" fill="#FFD23D"/><rect x="66" y="64" width="8" height="8" fill="#FFD23D"/><rect x="74" y="64" width="8" height="8" fill="#FFD23D"/><rect x="82" y="64" width="8" height="8" fill="#FF8A3D"/><rect x="90" y="64" width="8" height="8" fill="#FF6B1A"/><rect x="34" y="72" width="8" height="8" fill="#FF6B1A"/><rect x="42" y="72" width="8" height="8" fill="#FF8A3D"/><rect x="50" y="72" width="8" height="8" fill="#FFD23D"/><rect x="58" y="72" width="8" height="8" fill="#FFD23D"/><rect x="66" y="72" width="8" height="8" fill="#FFD23D"/><rect x="74" y="72" width="8" height="8" fill="#FFD23D"/><rect x="82" y="72" width="8" height="8" fill="#FF8A3D"/><rect x="90" y="72" width="8" height="8" fill="#FF8A3D"/><rect x="34" y="80" width="8" height="8" fill="#FF6B1A"/><rect x="42" y="80" width="8" height="8" fill="#FF8A3D"/><rect x="50" y="80" width="8" height="8" fill="#FF8A3D"/><rect x="58" y="80" width="8" height="8" fill="#FFD23D"/><rect x="66" y="80" width="8" height="8" fill="#FFD23D"/><rect x="74" y="80" width="8" height="8" fill="#FFD23D"/><rect x="82" y="80" width="8" height="8" fill="#FFD23D"/><rect x="90" y="80" width="8" height="8" fill="#FF8A3D"/><rect x="42" y="88" width="8" height="8" fill="#FF6B1A"/><rect x="50" y="88" width="8" height="8" fill="#FF8A3D"/><rect x="58" y="88" width="8" height="8" fill="#FF8A3D"/><rect x="66" y="88" width="8" height="8" fill="#FFD23D"/><rect x="74" y="88" width="8" height="8" fill="#FFD23D"/><rect x="82" y="88" width="8" height="8" fill="#FF8A3D"/><rect x="90" y="88" width="8" height="8" fill="#FF6B1A"/><rect x="50" y="96" width="8" height="8" fill="#FF6B1A"/><rect x="58" y="96" width="8" height="8" fill="#FF8A3D"/><rect x="66" y="96" width="8" height="8" fill="#FF8A3D"/><rect x="74" y="96" width="8" height="8" fill="#FF8A3D"/><rect x="82" y="96" width="8" height="8" fill="#FF6B1A"/><rect x="106" y="24" width="8" height="8" fill="#FF6B1A"/><rect x="98" y="40" width="8" height="8" fill="#FF8A3D"/><rect x="26" y="44" width="8" height="8" fill="#FF6B1A"/></g><g class="hbf hbf2"><rect x="74" y="8" width="8" height="8" fill="#FF6B1A"/><rect x="74" y="16" width="8" height="8" fill="#FF6B1A"/><rect x="66" y="24" width="8" height="8" fill="#FF6B1A"/><rect x="74" y="24" width="8" height="8" fill="#FF8A3D"/><rect x="66" y="32" width="8" height="8" fill="#FF6B1A"/><rect x="74" y="32" width="8" height="8" fill="#FF8A3D"/><rect x="58" y="40" width="8" height="8" fill="#FF6B1A"/><rect x="66" y="40" width="8" height="8" fill="#FF8A3D"/><rect x="74" y="40" width="8" height="8" fill="#FF8A3D"/><rect x="50" y="48" width="8" height="8" fill="#FF6B1A"/><rect x="58" y="48" width="8" height="8" fill="#FF8A3D"/><rect x="66" y="48" width="8" height="8" fill="#FF8A3D"/><rect x="74" y="48" width="8" height="8" fill="#FFD23D"/><rect x="82" y="48" width="8" height="8" fill="#FF6B1A"/><rect x="42" y="56" width="8" height="8" fill="#FF6B1A"/><rect x="50" y="56" width="8" height="8" fill="#FF8A3D"/><rect x="58" y="56" width="8" height="8" fill="#FFD23D"/><rect x="66" y="56" width="8" height="8" fill="#FFD23D"/><rect x="74" y="56" width="8" height="8" fill="#FF8A3D"/><rect x="82" y="56" width="8" height="8" fill="#FF8A3D"/><rect x="90" y="56" width="8" height="8" fill="#FF6B1A"/><rect x="42" y="64" width="8" height="8" fill="#FF6B1A"/><rect x="50" y="64" width="8" height="8" fill="#FF8A3D"/><rect x="58" y="64" width="8" height="8" fill="#FFD23D"/><rect x="66" y="64" width="8" height="8" fill="#FFD23D"/><rect x="74" y="64" width="8" height="8" fill="#FFD23D"/><rect x="82" y="64" width="8" height="8" fill="#FF8A3D"/><rect x="90" y="64" width="8" height="8" fill="#FF6B1A"/><rect x="34" y="72" width="8" height="8" fill="#FF6B1A"/><rect x="42" y="72" width="8" height="8" fill="#FF8A3D"/><rect x="50" y="72" width="8" height="8" fill="#FFD23D"/><rect x="58" y="72" width="8" height="8" fill="#FFD23D"/><rect x="66" y="72" width="8" height="8" fill="#FFD23D"/><rect x="74" y="72" width="8" height="8" fill="#FFD23D"/><rect x="82" y="72" width="8" height="8" fill="#FF8A3D"/><rect x="90" y="72" width="8" height="8" fill="#FF6B1A"/><rect x="34" y="80" width="8" height="8" fill="#FF6B1A"/><rect x="42" y="80" width="8" height="8" fill="#FF8A3D"/><rect x="50" y="80" width="8" height="8" fill="#FF8A3D"/><rect x="58" y="80" width="8" height="8" fill="#FFD23D"/><rect x="66" y="80" width="8" height="8" fill="#FFD23D"/><rect x="74" y="80" width="8" height="8" fill="#FFD23D"/><rect x="82" y="80" width="8" height="8" fill="#FF8A3D"/><rect x="90" y="80" width="8" height="8" fill="#FF6B1A"/><rect x="42" y="88" width="8" height="8" fill="#FF6B1A"/><rect x="50" y="88" width="8" height="8" fill="#FF8A3D"/><rect x="58" y="88" width="8" height="8" fill="#FF8A3D"/><rect x="66" y="88" width="8" height="8" fill="#FFD23D"/><rect x="74" y="88" width="8" height="8" fill="#FF8A3D"/><rect x="82" y="88" width="8" height="8" fill="#FF8A3D"/><rect x="90" y="88" width="8" height="8" fill="#FF6B1A"/><rect x="50" y="96" width="8" height="8" fill="#FF6B1A"/><rect x="58" y="96" width="8" height="8" fill="#FF8A3D"/><rect x="66" y="96" width="8" height="8" fill="#FF8A3D"/><rect x="74" y="96" width="8" height="8" fill="#FF8A3D"/><rect x="82" y="96" width="8" height="8" fill="#FF6B1A"/><rect x="26" y="28" width="8" height="8" fill="#FF6B1A"/><rect x="34" y="48" width="8" height="8" fill="#FF8A3D"/><rect x="106" y="56" width="8" height="8" fill="#FF8A3D"/></g><g class="hbf hbf3"><rect x="66" y="8" width="8" height="8" fill="#FF6B1A"/><rect x="58" y="16" width="8" height="8" fill="#FF6B1A"/><rect x="66" y="16" width="8" height="8" fill="#FF8A3D"/><rect x="58" y="24" width="8" height="8" fill="#FF6B1A"/><rect x="66" y="24" width="8" height="8" fill="#FF8A3D"/><rect x="82" y="24" width="8" height="8" fill="#FF6B1A"/><rect x="50" y="32" width="8" height="8" fill="#FF6B1A"/><rect x="58" y="32" width="8" height="8" fill="#FF8A3D"/><rect x="66" y="32" width="8" height="8" fill="#FF8A3D"/><rect x="82" y="32" width="8" height="8" fill="#FF6B1A"/><rect x="50" y="40" width="8" height="8" fill="#FF6B1A"/><rect x="58" y="40" width="8" height="8" fill="#FF8A3D"/><rect x="66" y="40" width="8" height="8" fill="#FFD23D"/><rect x="74" y="40" width="8" height="8" fill="#FF8A3D"/><rect x="82" y="40" width="8" height="8" fill="#FF8A3D"/><rect x="42" y="48" width="8" height="8" fill="#FF6B1A"/><rect x="50" y="48" width="8" height="8" fill="#FF8A3D"/><rect x="58" y="48" width="8" height="8" fill="#FFD23D"/><rect x="66" y="48" width="8" height="8" fill="#FFD23D"/><rect x="74" y="48" width="8" height="8" fill="#FF8A3D"/><rect x="82" y="48" width="8" height="8" fill="#FF8A3D"/><rect x="90" y="48" width="8" height="8" fill="#FF6B1A"/><rect x="42" y="56" width="8" height="8" fill="#FF6B1A"/><rect x="50" y="56" width="8" height="8" fill="#FF8A3D"/><rect x="58" y="56" width="8" height="8" fill="#FFD23D"/><rect x="66" y="56" width="8" height="8" fill="#FFD23D"/><rect x="74" y="56" width="8" height="8" fill="#FFD23D"/><rect x="82" y="56" width="8" height="8" fill="#FF8A3D"/><rect x="90" y="56" width="8" height="8" fill="#FF6B1A"/><rect x="34" y="64" width="8" height="8" fill="#FF6B1A"/><rect x="42" y="64" width="8" height="8" fill="#FF8A3D"/><rect x="50" y="64" width="8" height="8" fill="#FFD23D"/><rect x="58" y="64" width="8" height="8" fill="#FFD23D"/><rect x="66" y="64" width="8" height="8" fill="#FFD23D"/><rect x="74" y="64" width="8" height="8" fill="#FFD23D"/><rect x="82" y="64" width="8" height="8" fill="#FF8A3D"/><rect x="90" y="64" width="8" height="8" fill="#FF6B1A"/><rect x="34" y="72" width="8" height="8" fill="#FF6B1A"/><rect x="42" y="72" width="8" height="8" fill="#FF8A3D"/><rect x="50" y="72" width="8" height="8" fill="#FFD23D"/><rect x="58" y="72" width="8" height="8" fill="#FFD23D"/><rect x="66" y="72" width="8" height="8" fill="#FFD23D"/><rect x="74" y="72" width="8" height="8" fill="#FFD23D"/><rect x="82" y="72" width="8" height="8" fill="#FF8A3D"/><rect x="90" y="72" width="8" height="8" fill="#FF6B1A"/><rect x="34" y="80" width="8" height="8" fill="#FF6B1A"/><rect x="42" y="80" width="8" height="8" fill="#FF8A3D"/><rect x="50" y="80" width="8" height="8" fill="#FF8A3D"/><rect x="58" y="80" width="8" height="8" fill="#FFD23D"/><rect x="66" y="80" width="8" height="8" fill="#FFD23D"/><rect x="74" y="80" width="8" height="8" fill="#FFD23D"/><rect x="82" y="80" width="8" height="8" fill="#FF8A3D"/><rect x="90" y="80" width="8" height="8" fill="#FF6B1A"/><rect x="42" y="88" width="8" height="8" fill="#FF6B1A"/><rect x="50" y="88" width="8" height="8" fill="#FF8A3D"/><rect x="58" y="88" width="8" height="8" fill="#FF8A3D"/><rect x="66" y="88" width="8" height="8" fill="#FFD23D"/><rect x="74" y="88" width="8" height="8" fill="#FF8A3D"/><rect x="82" y="88" width="8" height="8" fill="#FF6B1A"/><rect x="50" y="96" width="8" height="8" fill="#FF6B1A"/><rect x="58" y="96" width="8" height="8" fill="#FF8A3D"/><rect x="66" y="96" width="8" height="8" fill="#FF8A3D"/><rect x="74" y="96" width="8" height="8" fill="#FF8A3D"/><rect x="82" y="96" width="8" height="8" fill="#FF6B1A"/><rect x="106" y="40" width="8" height="8" fill="#FF6B1A"/><rect x="18" y="32" width="8" height="8" fill="#FF8A3D"/></g><rect class="hbe" x="100" y="64" width="4" height="4" fill="#FFD23D"/><rect class="hbe d2" x="32" y="56" width="4" height="4" fill="#FF8A3D"/><rect class="hbe d3" x="86" y="30" width="4" height="4" fill="#FF6B1A"/><path d="M22 112 L118 112 L106 158 L34 158 Z" fill="#1B1E24"/><path d="M50 118 L47 152 M70 118 L70 152 M90 118 L93 152" stroke="#FF6B1A" stroke-width="3" stroke-linecap="round" opacity="0.45" fill="none"/><rect x="14" y="100" width="112" height="13" rx="5" fill="#2A2F37"/><circle cx="44" cy="164" r="7" fill="#2A2F37"/><circle cx="96" cy="164" r="7" fill="#2A2F37"/></svg></div><div class="word"><span class="dim">HELL</span><span class="strong">BOX</span></div></div>
  <div class="badge"><svg width="26" height="26" viewBox="0 0 24 24" fill="#FF6B1A"><rect x="6" y="5" width="4" height="14" rx="1.2"/><rect x="14" y="5" width="4" height="14" rx="1.2"/></svg></div>
  <div class="chip"><span id="dot"></span><b id="status">Checking&#8230;</b></div>
  <h2 id="head">Session suspended</h2>
  <p id="sub">Your microVM is frozen and compute billing has stopped.</p>
  <button id="btn" disabled>&#8230;</button>
  <div class="note"><svg width="13" height="13" viewBox="0 0 24 24" fill="none" stroke="#7E848E" stroke-width="2" stroke-linecap="round" stroke-linejoin="round"><path d="M12 7v5l3 2"/><circle cx="12" cy="12" r="9"/></svg>Back on the exact frame in ~2.6s</div>
<script>
var dot=document.getElementById('dot'),status=document.getElementById('status'),
    head=document.getElementById('head'),sub=document.getElementById('sub'),
    btn=document.getElementById('btn'),busy=false,cur='';
function paint(s){
  cur=s;
  if(s==='RUNNING'){dot.style.background='#57C77E';status.textContent='running';
    head.textContent='Session running';
    sub.textContent='The stream should be live. Reload the tab if it does not appear.';
    btn.textContent='Suspend session';btn.disabled=busy;}
  else if(s==='SUSPENDED'){dot.style.background='#FFB020';
    status.textContent='suspended · billing paused';head.textContent='Session suspended';
    sub.textContent='Your microVM is frozen and compute billing has stopped.';
    btn.textContent='Resume game';btn.disabled=busy;}
  else{dot.style.background='#888';status.textContent=s||'…';btn.textContent='…';btn.disabled=true;}
}
function poll(){if(busy)return;
  fetch('/__hellbox/state').then(function(r){return r.json();})
    .then(function(j){if(j.state)paint(j.state);})
    .catch(function(){status.textContent='proxy offline';dot.style.background='#888';});}
btn.onclick=function(){
  if(busy)return;
  var act=cur==='RUNNING'?'suspend':cur==='SUSPENDED'?'resume':null;if(!act)return;
  busy=true;btn.disabled=true;dot.style.background='#58a6ff';
  status.textContent=act==='suspend'?'suspending…':'resuming…';
  fetch('/__hellbox/'+act,{method:'POST'}).then(function(r){return r.json();})
    .then(function(j){busy=false;
      if(act==='resume'&&j.state==='RUNNING'){status.textContent='resumed · loading…';
        setTimeout(function(){var u=new URL(location.href);u.searchParams.set('resumed','1');location.href=u.toString();},700);return;}
      if(j.state)paint(j.state);else status.textContent=j.error||'error';})
    .catch(function(){busy=false;status.textContent='error';});
};
poll();setInterval(poll,3000);
</script></body></html>"##;

/// The controls put into the game's page: what the machine does, and a button to suspend or
/// resume it.
pub const CONTROL_PANEL: &'static str = r##"
<div id="hellbox-ctl" style="position:fixed;bottom:16px;right:16px;z-index:2147483647;
  font-family:-apple-system,BlinkMacSystemFont,'Segoe UI',system-ui,sans-serif;color:#ECE8DF;
  background:rgba(9,10,13,.74);border:1px solid #1F232A;border-radius:12px;padding:8px 8px 8px 14px;
  display:flex;gap:12px;align-items:center;box-shadow:0 12px 34px rgba(0,0,0,.5)">
  <span id="hellbox-dot" style="width:8px;height:8px;border-radius:50%;flex-shrink:0;
    background:#888;display:inline-block"></span>
  <span id="hellbox-status" style="font-size:13px;font-weight:600;letter-spacing:.01em;white-space:nowrap">…</span>
  <button id="hellbox-btn" style="font-family:inherit;font-size:13px;font-weight:600;
    padding:0 14px;height:34px;cursor:pointer;border-radius:8px;border:1px solid #2C313A;
    background:#15181D;color:#ECE8DF;white-space:nowrap" disabled>…</button>
</div>
<script>
(function(){
  // Scrub the entry token out of the address bar, history, and the a11y/
  // shoulder-surf surface. The cookie is set by now, so the token is spent.
  try{if(location.search.indexOf('hbk=')!==-1){
    var q=location.search.replace(/[?&]hbk=[^&]*/,'').replace(/^&/,'?');
    history.replaceState(null,'',location.pathname+q+location.hash);
  }}catch(e){}
  var dot=document.getElementById('hellbox-dot');
  var st=document.getElementById('hellbox-status');
  var btn=document.getElementById('hellbox-btn');
  var busy=false, cur='';
  function paint(state){
    cur=state;
    var map={RUNNING:['#57C77E','Running','Suspend'],
             SUSPENDED:['#FFB020','Suspended','Resume']};
    var m=map[state];
    if(m){dot.style.background=m[0];dot.style.boxShadow='0 0 7px '+m[0];
      st.textContent=m[1];btn.textContent=m[2];btn.disabled=busy;}
    else{dot.style.background='#888';dot.style.boxShadow='none';st.textContent=state||'…';btn.textContent='…';btn.disabled=true;}
  }
  function poll(){
    if(busy)return;
    fetch('/__hellbox/state').then(function(r){return r.json();})
      .then(function(j){if(j.state)paint(j.state);}).catch(function(){});
  }
  btn.onclick=function(){
    if(busy)return;
    var act=cur==='RUNNING'?'suspend':cur==='SUSPENDED'?'resume':null;
    if(!act)return;
    busy=true;btn.disabled=true;dot.style.background='#58a6ff';
    st.textContent=act==='suspend'?'Suspending…':'Resuming…';
    fetch('/__hellbox/'+act,{method:'POST'}).then(function(r){return r.json();})
      .then(function(j){
        busy=false;
        if(act==='resume'&&j.state==='RUNNING'){
          st.textContent='Reconnecting…';
          setTimeout(function(){var u=new URL(location.href);u.searchParams.set('resumed','1');location.href=u.toString();},600);return;
        }
        if(j.state)paint(j.state);else st.textContent=j.error||'error';
      })
      .catch(function(){busy=false;st.textContent='error';poll();});
  };
  poll();setInterval(poll,4000);
})();
</script>
"##;

/// The page with the controls before the end of its body, or at its end where the body is
/// not closed.
pub open spec fn with_panel(html: Seq<char>) -> Seq<char> {
    let k = last_occurrence(html, "</body>"@, html.len() - "</body>"@.len());
    if k >= 0 {
        html.take(k) + CONTROL_PANEL@ + html.skip(k)
    } else {
        html + CONTROL_PANEL@
    }
}

/// A page with the controls. What is not text stays as it is.
pub open spec fn injected_page(body: Seq<u8>) -> Seq<u8> {
    if valid_utf8(body) {
        encode_utf8(with_panel(decode_utf8(body)))
    } else {
        body
    }
}

/// Puts the controls into a page.
pub fn inject_panel(body: &[u8]) -> (r: Vec<u8>)
    ensures
        r@ == injected_page(body@),
{
    match utf8_text(body) {
        Some(html) => {
            let mut page: String;
            match rfind(html, "</body>") {
                Some(i) => {
                    let n: usize = html.unicode_len();
                    page = html.substring_char(0, i).to_owned();
                    page.append(CONTROL_PANEL);
                    page.append(html.substring_char(i, n));
                    assert(html@.subrange(0, i as int) =~= html@.take(i as int));
                    assert(html@.subrange(i as int, n as int) =~= html@.skip(i as int));
                },
                None => {
                    page = html.to_owned();
                    page.append(CONTROL_PANEL);
                },
            }
            page.as_str().as_bytes_vec()
        },
        None => vstd::slice::slice_to_vec(body),
    }
}

/// The page shown while the machine is not running.
pub fn control_only_page() -> (r: String)
    ensures
        r@ == CONTROL_ONLY_PAGE@,
{
    CONTROL_ONLY_PAGE.to_owned()
}

/// The game's page survives the injection: it is what is left without the controls.
pub proof fn law_page_survives(html: Seq<char>)
    ensures
        exists|k: int|
            0 <= k <= html.len() && with_panel(html) == #[trigger] html.take(k) + CONTROL_PANEL@
                + html.skip(k),
{
    let k = last_occurrence(html, "</body>"@, html.len() - "</body>"@.len());
    if k >= 0 {
        crate::text::lemma_last_occurrence(html, "</body>"@, html.len() - "</body>"@.len());
        assert(with_panel(html) == html.take(k) + CONTROL_PANEL@ + html.skip(k));
    } else {
        let n = html.len() as int;
        assert(with_panel(html) =~= html.take(n) + CONTROL_PANEL@ + html.skip(n));
    }
}

/// The controls stand right before the end of the page's body, the last one where it has
/// several, with all of the page around them.
pub proof fn law_panel_is_in_the_body(before: Seq<char>, after: Seq<char>)
    requires
        has_prefix(after, "</body>"@),
        forall|i: int| 0 < i ==> !(#[trigger] occurs_at(after, "</body>"@, i)),
    ensures
        with_panel(before + after) == before + CONTROL_PANEL@ + after,
{
    let html = before + after;
    let n = before.len() as int;
    let tag = "</body>"@;
    assert(html.subrange(n, n + tag.len()) =~= after.take(tag.len() as int));
    assert(occurs_at(html, tag, n));
    assert forall|j: int| n < j <= html.len() - tag.len() implies !occurs_at(html, tag, j) by {
        if occurs_at(html, tag, j) {
            assert(html.subrange(j, j + tag.len()) =~= after.subrange(j - n, j - n + tag.len()));
            assert(occurs_at(after, tag, j - n));
        }
    }
    lemma_last_is(html, tag, n, html.len() - tag.len());
    assert(html.take(n) =~= before);
    assert(html.skip(n) =~= after);
}

/// A page whose body is not closed has the controls at its end.
pub proof fn law_panel_ends_open_pages(html: Seq<char>)
    requires
        !contains_text(html, "</body>"@),
    ensures
        with_panel(html) == html + CONTROL_PANEL@,
{
    let tag = "</body>"@;
    if last_occurrence(html, tag, html.len() - tag.len()) >= 0 {
        crate::text::lemma_last_occurrence(html, tag, html.len() - tag.len());
    }
}

proof fn lemma_last_is(s: Seq<char>, needle: Seq<char>, n: int, k: int)
    requires
        0 <= n <= k,
        occurs_at(s, needle, n),
        forall|j: int| n < j <= k ==> !occurs_at(s, needle, j),
    ensures
        last_occurrence(s, needle, k) == n,
    decreases k - n,
{
    if k > n {
        lemma_last_is(s, needle, n, k - 1);
    }
}

/// Every page that is text gets the controls, and what is not text is handed on as it is.
pub proof fn law_every_page_gets_the_panel(html: Seq<char>, body: Seq<u8>)
    ensures
        injected_page(encode_utf8(html)) == encode_utf8(with_panel(html)),
        !valid_utf8(body) ==> injected_page(body) == body,
{
    encode_utf8_valid_utf8(html);
    encode_utf8_decode_utf8(html);
}

} // verus!
