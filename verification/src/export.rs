//! Rendering of a session: the self-contained, replayable HTML report and
//! the list of files that go into the archive.

use vstd::prelude::*;

use crate::clock::{in_chrono_range, utc_offset, year_first_text};
use crate::i18n::{pick_spec, Lang};
use crate::model::{description_spec, Action, ActionView, Step, StepView, WindowInfo, WindowInfoView};
use crate::session::Session;
use crate::strings::{chars_of, decimal, push_char, push_decimal};

verus! {

/// The HTML escape of one character.
pub open spec fn escape_char(c: char) -> Seq<char> {
    if c == '&' {
        "&amp;"@
    } else if c == '<' {
        "&lt;"@
    } else if c == '>' {
        "&gt;"@
    } else if c == '"' {
        "&quot;"@
    } else {
        seq![c]
    }
}

/// The text with `&`, `<`, `>` and `"` replaced by their HTML entities.
pub open spec fn escape_spec(s: Seq<char>) -> Seq<char>
    decreases s.len(),
{
    if s.len() == 0 {
        Seq::empty()
    } else {
        escape_spec(s.drop_last()) + escape_char(s.last())
    }
}

/// Escapes `&`, `<`, `>` and `"` for HTML.
pub fn escape(s: &str) -> (r: String)
    ensures
        r@ == escape_spec(s@),
{
    let cs = chars_of(s);
    let mut r = String::new();
    let mut i: usize = 0;
    while i < cs.len()
        invariant
            i <= cs.len(),
            cs@ == s@,
            r@ == escape_spec(cs@.take(i as int)),
        decreases cs.len() - i,
    {
        let c = cs[i];
        if c == '&' {
            r.append("&amp;");
        } else if c == '<' {
            r.append("&lt;");
        } else if c == '>' {
            r.append("&gt;");
        } else if c == '"' {
            r.append("&quot;");
        } else {
            push_char(&mut r, c);
        }
        assert(cs@.take(i + 1).drop_last() =~= cs@.take(i as int));
        i = i + 1;
    }
    assert(cs@.take(cs.len() as int) =~= cs@);
    r
}

/// The context line of a step: application, PID and size of its window;
/// empty when no window is known.
pub open spec fn context_spec(window: Option<WindowInfoView>) -> Seq<char> {
    match window {
        Some(w) => escape_spec(w.app_name) + " · PID "@ + decimal(w.pid as nat) + " · "@ + decimal(
            w.width as nat,
        ) + "×"@ + decimal(w.height as nat),
        None => Seq::empty(),
    }
}

/// The screenshot of a step as a zoomable image; empty without screenshot.
pub open spec fn image_spec(screenshot: Option<Seq<char>>, index: nat) -> Seq<char> {
    match screenshot {
        Some(name) => "<img src=\""@ + escape_spec(name) + "\" alt=\"capture étape "@ + decimal(index)
            + "\" onclick=\"zoom(this)\">"@,
        None => Seq::empty(),
    }
}

/// The HTML section of one step: its number, its description rebuilt in
/// the report's language (escaped), its elapsed time (`seconds`, the
/// elapsed milliseconds in seconds with one decimal) and window context,
/// and its screenshot. Steps of typed text carry the class `typed`.
pub open spec fn step_html_spec(st: StepView, lang: Lang, seconds: Seq<char>) -> Seq<char> {
    let class = match st.action {
        ActionView::Text { .. } => "step typed"@,
        ActionView::Click { .. } => "step"@,
    };
    "<section class=\""@ + class + "\">\n  <h2><span class=\"num\">"@ + decimal(st.index as nat)
        + "</span>"@ + escape_spec(description_spec(st.action, st.window, lang))
        + "</h2>\n  <p class=\"ctx\">⏱ "@ + seconds + "s — "@ + context_spec(st.window) + "</p>\n  "@
        + image_spec(st.screenshot, st.index as nat) + "\n</section>\n"@
}

/// The sections of the steps, in order, each with its elapsed-time label.
pub open spec fn steps_html_spec(steps: Seq<StepView>, seconds: Seq<Seq<char>>, lang: Lang) -> Seq<
    char,
>
    decreases steps.len(),
{
    if steps.len() == 0 {
        Seq::empty()
    } else {
        steps_html_spec(steps.drop_last(), seconds, lang) + step_html_spec(
            steps.last(),
            lang,
            seconds[steps.len() - 1],
        )
    }
}

/// The HTML report: a self-contained page listing `steps_html` under a
/// header that gives the number of steps and the start date, with a replay
/// player, in the given language.
pub open spec fn html_spec(lang: Lang, count: nat, date: Seq<char>, steps_html: Seq<char>) -> Seq<char> {
    r##"<!DOCTYPE html>
<html lang=""##@
        + pick_spec(lang, "fr"@, "en"@)
        + r##"">
<head>
<meta charset="utf-8">
<meta name="viewport" content="width=device-width, initial-scale=1">
<title>Support Step Recorder</title>
<style>
  :root { color-scheme: light dark; }
  /* La barre collée en haut a une hauteur variable ; on réserve la place au
     défilement pour que les étapes ne se cachent pas dessous. */
  html { scroll-padding-top: 8.5rem; }
  body { font-family: system-ui, sans-serif; margin: 0; background: #1115; }
  /* Header + toolbar forment UN seul bloc collé (pas de décalage entre eux). */
  .topbar { position: sticky; top: 0; z-index: 10; }
  header { padding: 1rem 1.5rem; background: #2b6cb0; color: #fff; }
  header h1 { margin: 0 0 .25rem; font-size: 1.2rem; }
  header .meta { font-size: .85rem; opacity: .9; }
  .toolbar { padding: .75rem 1.5rem; display: flex; gap: .5rem; align-items: center;
             background: #232830; border-bottom: 1px solid #0006; }
  button { font: inherit; padding: .35rem .8rem; border: 0; border-radius: .4rem;
           background: #2b6cb0; color: #fff; cursor: pointer; }
  button:hover { background: #2c5282; }
  /* Bouton relecture « enfoncé » quand le mode est actif. */
  button.active { background: #1a4971; box-shadow: inset 0 2px 5px #0007; }
  /* Navigation visible uniquement en mode relecture. */
  .nav { display: none; }
  body.replay .nav { display: inline-block; }
  main { padding: 1.5rem; max-width: 960px; margin: 0 auto; }
  .step { background: #fff2; border: 1px solid #8884; border-radius: .6rem;
          padding: 1rem; margin-bottom: 1.25rem; }
  .step h2 { font-size: 1rem; margin: 0 0 .5rem; }
  .step .num { display: inline-block; min-width: 1.6rem; height: 1.6rem; line-height: 1.6rem;
              text-align: center; background: #2b6cb0; color: #fff; border-radius: 50%;
              margin-right: .5rem; }
  .step .ctx { font-size: .8rem; opacity: .75; margin: 0 0 .5rem; }
  .step img { max-width: 100%; height: auto; border: 1px solid #8886; border-radius: .4rem;
             cursor: zoom-in; }
  .step.typed { border-left: 4px solid #d69e2e; }
  body.replay .step { display: none; }
  body.replay .step.current { display: block; }
  /* Visionneuse plein écran : clic sur une capture pour l'agrandir. */
  #lightbox { display: none; position: fixed; inset: 0; z-index: 100;
              background: #000d; cursor: zoom-out; padding: 2vmin; }
  #lightbox.open { display: flex; align-items: center; justify-content: center; }
  #lightbox img { max-width: 96vw; max-height: 96vh; border-radius: .4rem;
                 box-shadow: 0 8px 40px #000; }
</style>
</head>
<body>
<div class="topbar">
  <header>
    <h1>Support Step Recorder</h1>
    <div class="meta">"##@
        + decimal(count)
        + r##" "##@
        + pick_spec(lang, "étape(s) — enregistré le"@, "step(s) — recorded on"@)
        + r##" "##@
        + date
        + r##"</div>
  </header>
  <div class="toolbar">
    <button id="replayBtn" aria-pressed="false" onclick="toggleReplay()">▶ "##@
        + pick_spec(lang, "Mode relecture"@, "Replay mode"@)
        + r##"</button>
    <button class="nav" onclick="step(-1)">◀ "##@
        + pick_spec(lang, "Précédent"@, "Previous"@)
        + r##"</button>
    <button class="nav" onclick="step(1)">"##@
        + pick_spec(lang, "Suivant"@, "Next"@)
        + r##" ▶</button>
    <span id="pos"></span>
  </div>
</div>
<main id="steps">
"##@
        + steps_html
        + r##"
</main>
<div id="lightbox" onclick="this.classList.remove('open')"><img alt="capture agrandie"></div>
<script>
  // Visionneuse : clic sur une capture → plein écran ; clic ou Échap → fermer.
  function zoom(img) {
    const lb = document.getElementById('lightbox');
    lb.querySelector('img').src = img.src;
    lb.classList.add('open');
  }
  let replay = false, cur = 0;
  const steps = () => [...document.querySelectorAll('.step')];
  function toggleReplay() {
    replay = !replay;
    document.body.classList.toggle('replay', replay);
    const btn = document.getElementById('replayBtn');
    btn.classList.toggle('active', replay);
    btn.setAttribute('aria-pressed', replay);
    cur = 0; show();
  }
  function step(d) {
    if (!replay) return;
    const n = steps().length;
    cur = (cur + d + n) % n; show();
  }
  function show() {
    const all = steps();
    all.forEach((s, i) => s.classList.toggle('current', i === cur));
    document.getElementById('pos').textContent =
      replay ? `"##@
        + pick_spec(lang, "Étape"@, "Step"@)
        + r##" ${cur + 1} / ${all.length}` : '';
    if (replay) all[cur]?.scrollIntoView({behavior: 'smooth', block: 'start'});
  }
  document.addEventListener('keydown', e => {
    if (e.key === 'Escape') document.getElementById('lightbox').classList.remove('open');
    if (e.key === 'ArrowRight') step(1);
    if (e.key === 'ArrowLeft') step(-1);
  });
</script>
</body>
</html>
"##@
}

/// Renders the context line of a step.
fn render_context(window: &Option<WindowInfo>) -> (r: String)
    ensures
        r@ == context_spec(crate::model::window_opt_view(*window)),
{
    let mut r = String::new();
    match window {
        Some(w) => {
            let app = escape(w.app_name.as_str());
            r.append(app.as_str());
            r.append(" · PID ");
            push_decimal(&mut r, w.pid as u64);
            r.append(" · ");
            push_decimal(&mut r, w.width as u64);
            r.append("×");
            push_decimal(&mut r, w.height as u64);
        },
        None => {},
    }
    r
}

/// Renders the screenshot of a step.
fn render_image(screenshot: &Option<String>, index: usize) -> (r: String)
    ensures
        r@ == image_spec(crate::i18n::opt_view(*screenshot), index as nat),
{
    let mut r = String::new();
    match screenshot {
        Some(name) => {
            r.append("<img src=\"");
            let n = escape(name.as_str());
            r.append(n.as_str());
            r.append("\" alt=\"capture étape ");
            push_decimal(&mut r, index as u64);
            r.append("\" onclick=\"zoom(this)\">");
        },
        None => {},
    }
    r
}

/// Renders the HTML section of one step; `seconds` is its elapsed time in
/// seconds with one decimal.
pub fn render_step(step: &Step, lang: Lang, seconds: &str) -> (r: String)
    ensures
        r@ == step_html_spec(step@, lang, seconds@),
{
    let typed = match step.action {
        Action::Text { .. } => true,
        Action::Click { .. } => false,
    };
    // Description rebuilt in the report's language (independent of the
    // recording language).
    let desc = match &step.window {
        Some(w) => Step::build_description(&step.action, Some(w), lang),
        None => Step::build_description(&step.action, None, lang),
    };
    let class = if typed { "step typed" } else { "step" };
    let escaped = escape(desc.as_str());
    let ctx = render_context(&step.window);
    let image = render_image(&step.screenshot, step.index);
    let mut num = String::new();
    push_decimal(&mut num, step.index as u64);
    let mut r = String::new();
    r.append("<section class=\"");
    r.append(class);
    r.append("\">\n  <h2><span class=\"num\">");
    r.append(num.as_str());
    r.append("</span>");
    r.append(escaped.as_str());
    r.append("</h2>\n  <p class=\"ctx\">⏱ ");
    r.append(seconds);
    r.append("s — ");
    r.append(ctx.as_str());
    r.append("</p>\n  ");
    r.append(image.as_str());
    r.append("\n</section>\n");
    proof {
        let st = step@;
        let cls = match st.action {
            ActionView::Text { .. } => "step typed"@,
            ActionView::Click { .. } => "step"@,
        };
        assert(class@ == cls);
        assert(r@ =~= step_html_spec(step@, lang, seconds@));
    }
    r
}

/// The view of a list of strings.
pub open spec fn strings_view(v: Seq<String>) -> Seq<Seq<char>> {
    v.map_values(|s: String| s@)
}

/// Builds the self-contained HTML report (steps and replay player) for the
/// given start `date`; `seconds[i]` is the elapsed-time label of step `i`.
pub fn render_html_dated(session: &Session, lang: Lang, date: &str, seconds: &Vec<String>) -> (r:
    String)
    requires
        seconds@.len() == session@.steps.len(),
    ensures
        r@ == html_spec(
            lang,
            session@.steps.len(),
            date@,
            steps_html_spec(session@.steps, strings_view(seconds@), lang),
        ),
{
    let steps = session.steps_ref();
    let count = steps.len();
    let mut steps_html = String::new();
    let mut i: usize = 0;
    while i < count
        invariant
            i <= count == steps@.len() == seconds@.len(),
            steps@.map_values(|st: Step| st@) == session@.steps,
            steps_html@ == steps_html_spec(
                session@.steps.take(i as int),
                strings_view(seconds@),
                lang,
            ),
        decreases count - i,
    {
        let sec: &String = &seconds[i];
        let part = render_step(&steps[i], lang, sec.as_str());
        steps_html.append(part.as_str());
        proof {
            let t = session@.steps.take(i + 1);
            assert(t.drop_last() =~= session@.steps.take(i as int));
            assert(t.last() == steps@[i as int]@);
            assert(strings_view(seconds@)[i as int] == seconds@[i as int]@);
        }
        i = i + 1;
    }
    proof {
        assert(session@.steps.take(count as int) =~= session@.steps);
    }
        let mut r = String::new();
        r.append(r##"<!DOCTYPE html>
<html lang=""##);
        r.append(lang.code());
        r.append(r##"">
<head>
<meta charset="utf-8">
<meta name="viewport" content="width=device-width, initial-scale=1">
<title>Support Step Recorder</title>
<style>
  :root { color-scheme: light dark; }
  /* La barre collée en haut a une hauteur variable ; on réserve la place au
     défilement pour que les étapes ne se cachent pas dessous. */
  html { scroll-padding-top: 8.5rem; }
  body { font-family: system-ui, sans-serif; margin: 0; background: #1115; }
  /* Header + toolbar forment UN seul bloc collé (pas de décalage entre eux). */
  .topbar { position: sticky; top: 0; z-index: 10; }
  header { padding: 1rem 1.5rem; background: #2b6cb0; color: #fff; }
  header h1 { margin: 0 0 .25rem; font-size: 1.2rem; }
  header .meta { font-size: .85rem; opacity: .9; }
  .toolbar { padding: .75rem 1.5rem; display: flex; gap: .5rem; align-items: center;
             background: #232830; border-bottom: 1px solid #0006; }
  button { font: inherit; padding: .35rem .8rem; border: 0; border-radius: .4rem;
           background: #2b6cb0; color: #fff; cursor: pointer; }
  button:hover { background: #2c5282; }
  /* Bouton relecture « enfoncé » quand le mode est actif. */
  button.active { background: #1a4971; box-shadow: inset 0 2px 5px #0007; }
  /* Navigation visible uniquement en mode relecture. */
  .nav { display: none; }
  body.replay .nav { display: inline-block; }
  main { padding: 1.5rem; max-width: 960px; margin: 0 auto; }
  .step { background: #fff2; border: 1px solid #8884; border-radius: .6rem;
          padding: 1rem; margin-bottom: 1.25rem; }
  .step h2 { font-size: 1rem; margin: 0 0 .5rem; }
  .step .num { display: inline-block; min-width: 1.6rem; height: 1.6rem; line-height: 1.6rem;
              text-align: center; background: #2b6cb0; color: #fff; border-radius: 50%;
              margin-right: .5rem; }
  .step .ctx { font-size: .8rem; opacity: .75; margin: 0 0 .5rem; }
  .step img { max-width: 100%; height: auto; border: 1px solid #8886; border-radius: .4rem;
             cursor: zoom-in; }
  .step.typed { border-left: 4px solid #d69e2e; }
  body.replay .step { display: none; }
  body.replay .step.current { display: block; }
  /* Visionneuse plein écran : clic sur une capture pour l'agrandir. */
  #lightbox { display: none; position: fixed; inset: 0; z-index: 100;
              background: #000d; cursor: zoom-out; padding: 2vmin; }
  #lightbox.open { display: flex; align-items: center; justify-content: center; }
  #lightbox img { max-width: 96vw; max-height: 96vh; border-radius: .4rem;
                 box-shadow: 0 8px 40px #000; }
</style>
</head>
<body>
<div class="topbar">
  <header>
    <h1>Support Step Recorder</h1>
    <div class="meta">"##);
        push_decimal(&mut r, count as u64);
        r.append(r##" "##);
        r.append(lang.pick("étape(s) — enregistré le", "step(s) — recorded on"));
        r.append(r##" "##);
        r.append(date);
        r.append(r##"</div>
  </header>
  <div class="toolbar">
    <button id="replayBtn" aria-pressed="false" onclick="toggleReplay()">▶ "##);
        r.append(lang.pick("Mode relecture", "Replay mode"));
        r.append(r##"</button>
    <button class="nav" onclick="step(-1)">◀ "##);
        r.append(lang.pick("Précédent", "Previous"));
        r.append(r##"</button>
    <button class="nav" onclick="step(1)">"##);
        r.append(lang.pick("Suivant", "Next"));
        r.append(r##" ▶</button>
    <span id="pos"></span>
  </div>
</div>
<main id="steps">
"##);
        r.append(steps_html.as_str());
        r.append(r##"
</main>
<div id="lightbox" onclick="this.classList.remove('open')"><img alt="capture agrandie"></div>
<script>
  // Visionneuse : clic sur une capture → plein écran ; clic ou Échap → fermer.
  function zoom(img) {
    const lb = document.getElementById('lightbox');
    lb.querySelector('img').src = img.src;
    lb.classList.add('open');
  }
  let replay = false, cur = 0;
  const steps = () => [...document.querySelectorAll('.step')];
  function toggleReplay() {
    replay = !replay;
    document.body.classList.toggle('replay', replay);
    const btn = document.getElementById('replayBtn');
    btn.classList.toggle('active', replay);
    btn.setAttribute('aria-pressed', replay);
    cur = 0; show();
  }
  function step(d) {
    if (!replay) return;
    const n = steps().length;
    cur = (cur + d + n) % n; show();
  }
  function show() {
    const all = steps();
    all.forEach((s, i) => s.classList.toggle('current', i === cur));
    document.getElementById('pos').textContent =
      replay ? `"##);
        r.append(lang.pick("Étape", "Step"));
        r.append(r##" ${cur + 1} / ${all.length}` : '';
    if (replay) all[cur]?.scrollIntoView({behavior: 'smooth', block: 'start'});
  }
  document.addEventListener('keydown', e => {
    if (e.key === 'Escape') document.getElementById('lightbox').classList.remove('open');
    if (e.key === 'ArrowRight') step(1);
    if (e.key === 'ArrowLeft') step(-1);
  });
</script>
</body>
</html>
"##);
        r
}

/// The start date of the session in local time, `YYYY-MM-DD hh:mm:ss`
/// (chrono, in the machine's time zone; `?` for a timestamp out of
/// chrono's range).
fn report_date(session: &Session) -> (r: String)
    ensures
        in_chrono_range(session@.started_at) ==> exists|off: int|
            utc_offset(off) && r@ == year_first_text(session@.started_at + off),
        !in_chrono_range(session@.started_at) ==> r@ == "?"@,
{
    let pattern = "%Y-%m-%d %H:%M:%S";
    proof {
        reveal_strlit("%Y-%m-%d %H:%M:%S");
    }
    match crate::clock::local_date_text(session.started_at_ms(), pattern) {
        Some(d) => d,
        None => {
            let r = String::from_str("?");
            proof {
                reveal_strlit("?");
            }
            r
        },
    }
}

/// Builds the self-contained HTML report (steps and replay player);
/// `seconds[i]` is the elapsed-time label of step `i`. The start date is
/// rendered in the machine's time zone.
pub fn render_html(session: &Session, lang: Lang, seconds: &Vec<String>) -> (r: String)
    requires
        seconds@.len() == session@.steps.len(),
    ensures
        exists|date: Seq<char>|
            {
                &&& in_chrono_range(session@.started_at) ==> exists|off: int|
                    utc_offset(off) && date == year_first_text(session@.started_at + off)
                &&& !in_chrono_range(session@.started_at) ==> date == "?"@
                &&& r@ == html_spec(
                    lang,
                    session@.steps.len(),
                    date,
                    steps_html_spec(session@.steps, strings_view(seconds@), lang),
                )
            },
{
    let date = report_date(session);
    let r = render_html_dated(session, lang, date.as_str(), seconds);
    let ghost d = date@;
    assert({
        &&& in_chrono_range(session@.started_at) ==> exists|off: int|
            utc_offset(off) && d == year_first_text(session@.started_at + off)
        &&& !in_chrono_range(session@.started_at) ==> d == "?"@
        &&& r@ == html_spec(
            lang,
            session@.steps.len(),
            d,
            steps_html_spec(session@.steps, strings_view(seconds@), lang),
        )
    });
    r
}

/// The screenshot names of the steps that have one, in order.
pub open spec fn screenshot_names(steps: Seq<StepView>) -> Seq<Seq<char>>
    decreases steps.len(),
{
    if steps.len() == 0 {
        Seq::empty()
    } else {
        let rest = screenshot_names(steps.drop_last());
        match steps.last().screenshot {
            Some(name) => rest.push(name),
            None => rest,
        }
    }
}

/// The files that the archive holds, in order: the report, the steps, then
/// the screenshot of each step that has one.
pub fn archive_entries(session: &Session) -> (r: Vec<String>)
    ensures
        strings_view(r@) == seq!["report.html"@, "steps.json"@] + screenshot_names(session@.steps),
{
    let steps = session.steps_ref();
    let mut r: Vec<String> = Vec::new();
    r.push(String::from_str("report.html"));
    r.push(String::from_str("steps.json"));
    let mut i: usize = 0;
    while i < steps.len()
        invariant
            i <= steps@.len(),
            steps@.map_values(|st: Step| st@) == session@.steps,
            strings_view(r@) == seq!["report.html"@, "steps.json"@] + screenshot_names(
                session@.steps.take(i as int),
            ),
        decreases steps@.len() - i,
    {
        let ghost before = r@;
        match &steps[i].screenshot {
            Some(name) => {
                r.push(name.clone());
                assert(strings_view(r@) =~= strings_view(before).push(name@));
            },
            None => {},
        }
        proof {
            let t = session@.steps.take(i + 1);
            assert(t.drop_last() =~= session@.steps.take(i as int));
            assert(t.last() == steps@[i as int]@);
            assert(strings_view(r@) =~= seq!["report.html"@, "steps.json"@] + screenshot_names(t));
        }
        i = i + 1;
    }
    proof {
        assert(session@.steps.take(steps@.len() as int) =~= session@.steps);
    }
    r
}

} // verus!

verus! {

/// Escaped text holds no `<`, `>` or `"`: text inserted in the report cannot
/// open a tag or close an attribute.
pub proof fn lemma_escape_has_no_markup(s: Seq<char>)
    ensures
        forall|i: int|
            0 <= i < escape_spec(s).len() ==> {
                let c = #[trigger] escape_spec(s)[i];
                c != '<' && c != '>' && c != '"'
            },
    decreases s.len(),
{
    reveal_strlit("&amp;");
    reveal_strlit("&lt;");
    reveal_strlit("&gt;");
    reveal_strlit("&quot;");
    if s.len() > 0 {
        lemma_escape_has_no_markup(s.drop_last());
        let a = escape_spec(s.drop_last());
        let b = escape_char(s.last());
        assert forall|i: int| 0 <= i < (a + b).len() implies {
            let c = #[trigger] (a + b)[i];
            c != '<' && c != '>' && c != '"'
        } by {
            if i >= a.len() {
                assert((a + b)[i] == b[i - a.len()]);
            } else {
                assert((a + b)[i] == a[i]);
            }
        }
    }
}

/// The sections of `steps` read only the first `steps.len()` labels.
proof fn lemma_steps_html_labels_prefix(
    steps: Seq<StepView>,
    s1: Seq<Seq<char>>,
    s2: Seq<Seq<char>>,
    lang: Lang,
)
    requires
        s1.len() >= steps.len(),
        s2.len() >= steps.len(),
        forall|i: int| 0 <= i < steps.len() ==> s1[i] == s2[i],
    ensures
        steps_html_spec(steps, s1, lang) == steps_html_spec(steps, s2, lang),
    decreases steps.len(),
{
    if steps.len() > 0 {
        lemma_steps_html_labels_prefix(steps.drop_last(), s1, s2, lang);
    }
}

/// The report of no step has no section; the report of one step is that
/// step's section.
pub proof fn lemma_steps_html_single(st: StepView, seconds: Seq<char>, lang: Lang)
    ensures
        steps_html_spec(Seq::empty(), Seq::empty(), lang) == Seq::<char>::empty(),
        steps_html_spec(seq![st], seq![seconds], lang) == step_html_spec(st, lang, seconds),
{
    assert(seq![st].drop_last() =~= Seq::<StepView>::empty());
    assert(steps_html_spec(seq![st].drop_last(), seq![seconds], lang) == Seq::<char>::empty());
    assert(seq![st].last() == st);
    assert(seq![seconds][0] == seconds);
    assert(Seq::<char>::empty() + step_html_spec(st, lang, seconds) =~= step_html_spec(
        st,
        lang,
        seconds,
    ));
}

/// The sections of the steps come in step order: the sections of the steps
/// `a` followed by the steps `b` are those of `a`, then those of `b`, each
/// step with its own elapsed-time label.
pub proof fn lemma_steps_html_concat(
    a: Seq<StepView>,
    sa: Seq<Seq<char>>,
    b: Seq<StepView>,
    sb: Seq<Seq<char>>,
    lang: Lang,
)
    requires
        sa.len() == a.len(),
        sb.len() == b.len(),
    ensures
        steps_html_spec(a + b, sa + sb, lang) == steps_html_spec(a, sa, lang) + steps_html_spec(
            b,
            sb,
            lang,
        ),
    decreases b.len(),
{
    if b.len() == 0 {
        assert(a + b =~= a);
        lemma_steps_html_labels_prefix(a, sa + sb, sa, lang);
        assert(steps_html_spec(a, sa, lang) + Seq::<char>::empty() =~= steps_html_spec(a, sa, lang));
    } else {
        let b1 = b.drop_last();
        let sb1 = sb.drop_last();
        lemma_steps_html_concat(a, sa, b1, sb1, lang);
        assert((a + b).drop_last() =~= a + b1);
        lemma_steps_html_labels_prefix(a + b1, sa + sb, sa + sb1, lang);
        lemma_steps_html_labels_prefix(b1, sb, sb1, lang);
        assert((a + b).last() == b.last());
        assert((sa + sb)[(a + b).len() - 1] == sb[b.len() - 1]);
        assert(steps_html_spec(a + b, sa + sb, lang) == steps_html_spec(a + b1, sa + sb, lang)
            + step_html_spec(b.last(), lang, sb[b.len() - 1]));
        assert(steps_html_spec(b, sb, lang) == steps_html_spec(b1, sb, lang) + step_html_spec(
            b.last(),
            lang,
            sb[b.len() - 1],
        ));
        assert(steps_html_spec(a, sa, lang) + steps_html_spec(b1, sb1, lang) + step_html_spec(
            b.last(),
            lang,
            sb[b.len() - 1],
        ) =~= steps_html_spec(a, sa, lang) + (steps_html_spec(b1, sb1, lang) + step_html_spec(
            b.last(),
            lang,
            sb[b.len() - 1],
        )));
    }
}

} // verus!
