//! What the sign-in browser is told: how it is launched, the scripts that
//! run in its page, and the order in which the sign-in form is filled.
use vstd::prelude::*;
use vstd::string::*;

use crate::text::{
    begins_with, chars_of, clone_text, concat2, hex_pair, hex_pair_of, opt_text, same, starts_with,
    texts,
};

verus! {

// ── String literals ──────────────────────────────────────────────────────

/// How one character stands in a JSON string literal.
pub open spec fn json_char(c: char) -> Seq<char> {
    if c == '"' {
        seq!['\\', '"']
    } else if c == '\\' {
        seq!['\\', '\\']
    } else if c == '\n' {
        seq!['\\', 'n']
    } else if c == '\r' {
        seq!['\\', 'r']
    } else if c == '\t' {
        seq!['\\', 't']
    } else if (c as u32) < 0x20 {
        seq!['\\', 'u', '0', '0'] + hex_pair(c as u8)
    } else {
        seq![c]
    }
}

/// The characters between the quotes of a JSON string literal.
pub open spec fn json_body(s: Seq<char>) -> Seq<char>
    decreases s.len(),
{
    if s.len() == 0 {
        Seq::empty()
    } else {
        json_body(s.drop_last()) + json_char(s.last())
    }
}

/// The JSON string literal for `s`.
pub open spec fn json_text(s: Seq<char>) -> Seq<char> {
    seq!['"'] + json_body(s) + seq!['"']
}

fn push_json_char(out: &mut String, c: char)
    ensures
        final(out)@ == old(out)@ + json_char(c),
{
    match c {
        '"' => {
            out.push('\\');
            out.push('"');
        },
        '\\' => {
            out.push('\\');
            out.push('\\');
        },
        '\n' => {
            out.push('\\');
            out.push('n');
        },
        '\r' => {
            out.push('\\');
            out.push('r');
        },
        '\t' => {
            out.push('\\');
            out.push('t');
        },
        c => {
            if (c as u32) < 0x20 {
                out.push('\\');
                out.push('u');
                out.push('0');
                out.push('0');
                out.append(hex_pair_of(c as u8).as_str());
            } else {
                out.push(c);
            }
        },
    }
    assert(out@ =~= old(out)@ + json_char(c));
}

/// The JSON string literal for `s`, to stand inside a script.
pub fn serde_json_encode(s: &str) -> (r: String)
    ensures
        r@ == json_text(s@),
{
    let v = chars_of(s);
    let mut out = String::new();
    out.push('"');
    let mut i: usize = 0;
    assert(out@ =~= seq!['"'] + json_body(v@.take(0)));
    while i < v.len()
        invariant
            i <= v@.len(),
            out@ == seq!['"'] + json_body(v@.take(i as int)),
        decreases v@.len() - i,
    {
        push_json_char(&mut out, v[i]);
        assert(v@.take(i + 1).drop_last() == v@.take(i as int));
        assert(out@ =~= seq!['"'] + json_body(v@.take(i + 1)));
        i = i + 1;
    }
    assert(v@.take(i as int) == v@);
    out.push('"');
    assert(out@ =~= json_text(s@));
    out
}

// ── Reading a literal back ───────────────────────────────────────────────

/// The value of a lower-case hexadecimal digit.
pub open spec fn hex_value(c: char) -> nat {
    if '0' <= c <= '9' {
        (c as u32 - '0' as u32) as nat
    } else {
        (c as u32 - 'a' as u32 + 10) as nat
    }
}

/// Reads the inside of a string literal up to its closing quote: what it
/// denotes, and what follows the quote.
pub open spec fn read_body(t: Seq<char>) -> Option<(Seq<char>, Seq<char>)>
    decreases t.len(),
{
    if t.len() == 0 {
        None
    } else if t[0] == '"' {
        Some((Seq::empty(), t.skip(1)))
    } else if t[0] != '\\' {
        read_after(t[0], read_body(t.skip(1)))
    } else if t.len() < 2 {
        None
    } else if t[1] == 'n' {
        read_after('\n', read_body(t.skip(2)))
    } else if t[1] == 'r' {
        read_after('\r', read_body(t.skip(2)))
    } else if t[1] == 't' {
        read_after('\t', read_body(t.skip(2)))
    } else if t[1] != 'u' {
        read_after(t[1], read_body(t.skip(2)))
    } else if t.len() < 6 {
        None
    } else {
        let code = hex_value(t[2]) * 4096 + hex_value(t[3]) * 256 + hex_value(t[4]) * 16
            + hex_value(t[5]);
        read_after(code as char, read_body(t.skip(6)))
    }
}

/// A character before the rest of what was read.
pub open spec fn read_after(
    c: char,
    rest: Option<(Seq<char>, Seq<char>)>,
) -> Option<(Seq<char>, Seq<char>)> {
    match rest {
        Some((s, left)) => Some((seq![c] + s, left)),
        None => None,
    }
}

/// Reads a string literal at the start of a text.
pub open spec fn read_literal(t: Seq<char>) -> Option<(Seq<char>, Seq<char>)> {
    if t.len() > 0 && t[0] == '"' {
        read_body(t.skip(1))
    } else {
        None
    }
}

proof fn lemma_control_hex(c: char)
    requires
        (c as u32) < 0x20,
    ensures
        hex_value(hex_pair(c as u8)[0]) * 16 + hex_value(hex_pair(c as u8)[1]) == c as u32,
        hex_pair(c as u8).len() == 2,
{
}

proof fn lemma_read_char(c: char, rest: Seq<char>)
    ensures
        read_body(json_char(c) + rest) == read_after(c, read_body(rest)),
{
    let t = json_char(c) + rest;
    let n = json_char(c).len() as int;
    assert(t.skip(n) =~= rest);
    if c == '"' || c == '\\' || c == '\n' || c == '\r' || c == '\t' {
    } else if (c as u32) < 0x20 {
        lemma_control_hex(c);
        let h = hex_pair(c as u8);
        assert(t[2] == '0' && t[3] == '0' && t[4] == h[0] && t[5] == h[1]);
    }
}

proof fn lemma_read_json_body(s: Seq<char>, rest: Seq<char>)
    ensures
        read_body(json_body(s) + rest) == match read_body(rest) {
            Some((more, left)) => Some((s + more, left)),
            None => None,
        },
    decreases s.len(),
{
    if s.len() == 0 {
        assert(json_body(s) + rest =~= rest);
        match read_body(rest) {
            Some((more, left)) => assert(s + more =~= more),
            None => {},
        }
    } else {
        let tail = json_char(s.last()) + rest;
        assert(json_body(s) + rest =~= json_body(s.drop_last()) + tail);
        lemma_read_json_body(s.drop_last(), tail);
        lemma_read_char(s.last(), rest);
        match read_body(rest) {
            Some((more, left)) => assert(s.drop_last() + (seq![s.last()] + more) =~= s + more),
            None => {},
        }
    }
}

/// No text can break out of its literal: whatever follows the literal, a
/// reader takes the literal for exactly the text, and goes on right behind
/// it.
pub proof fn law_literal_is_read_back(s: Seq<char>, rest: Seq<char>)
    ensures
        read_literal(json_text(s) + rest) == Some((s, rest)),
{
    let t = json_text(s) + rest;
    let inner = seq!['"'] + rest;
    assert(t.skip(1) =~= json_body(s) + inner);
    lemma_read_json_body(s, inner);
    assert(inner.skip(1) =~= rest);
    assert(s + Seq::<char>::empty() =~= s);
}

// ── Scripts ──────────────────────────────────────────────────────────────

/// The account picker's script up to the literal with the user's name.
pub const PICKER_HEAD: &'static str = "(() => {\n            const user = ";

/// The account picker's script behind that literal: it clicks the tile whose
/// test id is the name, else the first one that mentions it.
pub const PICKER_TAIL: &'static str = r#";
            const lower = user.toLowerCase();
            const direct = document.querySelector(
                `[data-test-id="${user}"]`
            );
            if (direct) { direct.click(); return 'data-test-id'; }
            const tiles = document.querySelectorAll(
                '#tilesHolder [role="button"]'
            );
            for (const t of tiles) {
                const txt = (t.textContent || '').toLowerCase();
                const aria = (t.getAttribute('aria-label') || '').toLowerCase();
                if (txt.includes(lower) || aria.includes(lower)) {
                    t.click();
                    return 'text-match';
                }
            }
            return 'none (tiles=' + tiles.length + ')';
        })()"#;

/// The script that clicks the account picker's tile for `username`.
pub fn account_picker_script(username: &str) -> (r: String)
    ensures
        r@ == PICKER_HEAD@ + json_text(username@) + PICKER_TAIL@,
{
    let mut out = PICKER_HEAD.to_owned();
    out.append(serde_json_encode(username).as_str());
    out.append(PICKER_TAIL);
    out
}

/// The text that the standard library's `Debug` form of a string consists of:
/// the string in double quotes, with escapes.
pub uninterp spec fn debug_form(s: Seq<char>) -> Seq<char>;

/// The `Debug` form of a string, as `format!` writes it with `{:?}`. The
/// contract claims that it depends on the characters of the string alone and
/// calls it `debug_form`. Which characters are escaped, and how, is left
/// unsaid: it follows the library's own table of printable characters.
#[verifier::external_body]
fn debug_text(s: &str) -> (r: String)
    ensures
        r@ == debug_form(s@),
{
    format!("{:?}", s)
}

/// The script that sends the page to the address in a string literal.
pub fn reload_script_for(literal: &str) -> (r: String)
    ensures
        r@ == "location.href = "@ + literal@,
{
    concat2("location.href = ", literal)
}

/// The script that sends the page to `url`.
pub fn reload_script(url: &str) -> (r: String)
    ensures
        r@ == "location.href = "@ + debug_form(url@),
{
    reload_script_for(debug_text(url).as_str())
}

/// The script that empties the first element that the selector in a string
/// literal matches.
pub fn clear_script_for(literal: &str) -> (r: String)
    ensures
        r@ == "document.querySelector("@ + literal@ + ").value = ''"@,
{
    let mut out = "document.querySelector(".to_owned();
    out.append(literal);
    out.append(").value = ''");
    out
}

/// The script that empties the first element that `selector` matches.
pub fn clear_script(selector: &str) -> (r: String)
    ensures
        r@ == "document.querySelector("@ + debug_form(selector@) + ").value = ''"@,
{
    clear_script_for(debug_text(selector).as_str())
}

/// Whether the account picker's script clicked a tile, by what it returned.
pub fn tile_was_clicked(result: &str) -> (r: bool)
    ensures
        r == !begins_with(result@, "none"@),
{
    !starts_with(result, "none")
}

/// What became of the box that suppresses further prompts.
#[derive(Debug, Clone, Copy, PartialEq, Eq, Structural)]
pub struct RememberDevice {
    /// The page has the box.
    pub found: bool,
    /// The box was ticked just now.
    pub ticked: bool,
}

/// Reads what the script for that box returned; without a result the page
/// has no box.
pub fn remember_device(result: Option<&str>) -> (r: RememberDevice)
    ensures
        r == (match result {
            Some(s) => RememberDevice { found: s@ != "none"@, ticked: s@ == "clicked"@ },
            None => RememberDevice { found: false, ticked: false },
        }),
{
    match result {
        Some(s) => RememberDevice { found: !same(s, "none"), ticked: same(s, "clicked") },
        None => RememberDevice { found: false, ticked: false },
    }
}

// ── The sign-in form ─────────────────────────────────────────────────────

/// What is tried next on the sign-in page.
#[derive(Debug, Clone, Copy, PartialEq, Eq, Structural)]
pub enum LoginStep {
    /// Click the account's tile.
    Picker,
    /// Type the user's name.
    Username,
    /// Type the password.
    Password,
    /// Press the form's button.
    Submit,
    /// Nothing more until the page has moved on.
    Done,
}

/// What follows a step, by whether it worked: a form is submitted only if
/// something was typed, and at most one form is filled at a time.
pub open spec fn login_step_after(step: LoginStep, worked: bool) -> LoginStep {
    match step {
        LoginStep::Picker => if worked {
            LoginStep::Done
        } else {
            LoginStep::Username
        },
        LoginStep::Username => if worked {
            LoginStep::Submit
        } else {
            LoginStep::Password
        },
        LoginStep::Password => if worked {
            LoginStep::Submit
        } else {
            LoginStep::Done
        },
        LoginStep::Submit | LoginStep::Done => LoginStep::Done,
    }
}

/// What follows a step of filling the sign-in form.
pub fn next_login_step(step: LoginStep, worked: bool) -> (r: LoginStep)
    ensures
        r == login_step_after(step, worked),
{
    match step {
        LoginStep::Picker => if worked {
            LoginStep::Done
        } else {
            LoginStep::Username
        },
        LoginStep::Username => if worked {
            LoginStep::Submit
        } else {
            LoginStep::Password
        },
        LoginStep::Password => if worked {
            LoginStep::Submit
        } else {
            LoginStep::Done
        },
        LoginStep::Submit | LoginStep::Done => LoginStep::Done,
    }
}

// ── Launching ────────────────────────────────────────────────────────────

/// How the sign-in browser is launched.
#[derive(Debug)]
pub struct LaunchPlan {
    pub width: u32,
    pub height: u32,
    pub args: Vec<String>,
    /// With a visible window.
    pub head: bool,
    /// The profile directory; without one the profile is ephemeral.
    pub user_data_dir: Option<String>,
    /// The executable; without one the browser is looked for.
    pub executable: Option<String>,
}

/// The configured executable does not exist.
#[derive(Debug)]
pub struct ExecutableMissing {
    pub path: String,
}

impl ExecutableMissing {
    /// What the user is told.
    pub fn message(&self) -> (r: String)
        ensures
            r@ == "configured Chromium executable not found: "@ + self.path@,
    {
        concat2("configured Chromium executable not found: ", self.path.as_str())
    }
}

/// Plans the launch of the sign-in browser. It never goes through a proxy:
/// signing in must not depend on a tunnel that cannot start before it.
/// `exists` tells whether the configured executable is there.
pub fn launch_plan(
    headless: bool,
    profile_dir: &Option<String>,
    chromium_path: &Option<String>,
    exists: bool,
) -> (r: Result<LaunchPlan, ExecutableMissing>)
    ensures
        r is Err <==> (chromium_path is Some && !exists),
        match r {
            Ok(plan) => {
                &&& plan.width == 1280
                &&& plan.height == 900
                &&& texts(plan.args@) == seq!["--no-proxy-server"@]
                &&& plan.head == !headless
                &&& opt_text(plan.user_data_dir) == opt_text(*profile_dir)
                &&& opt_text(plan.executable) == opt_text(*chromium_path)
            },
            Err(e) => Some(e.path@) == opt_text(*chromium_path),
        },
{
    if let Some(path) = chromium_path {
        if !exists {
            return Err(ExecutableMissing { path: path.as_str().to_owned() });
        }
    }
    let mut args: Vec<String> = Vec::new();
    args.push("--no-proxy-server".to_owned());
    assert(texts(args@) =~= seq!["--no-proxy-server"@]);
    Ok(
        LaunchPlan {
            width: 1280,
            height: 900,
            args,
            head: !headless,
            user_data_dir: clone_text(profile_dir),
            executable: clone_text(chromium_path),
        },
    )
}

// ── Laws ─────────────────────────────────────────────────────────────────

/// Whatever the user's name holds, the picker's script has it as a literal
/// that is read back as the name, with the fixed rest of the script behind
/// it.
pub proof fn law_picker_script_embeds_the_name(name: Seq<char>)
    ensures
        read_literal(
            (PICKER_HEAD@ + json_text(name) + PICKER_TAIL@).skip(PICKER_HEAD@.len() as int),
        ) == Some((name, PICKER_TAIL@)),
{
    let script = PICKER_HEAD@ + json_text(name) + PICKER_TAIL@;
    assert(script.skip(PICKER_HEAD@.len() as int) =~= json_text(name) + PICKER_TAIL@);
    law_literal_is_read_back(name, PICKER_TAIL@);
}

/// The form's button is pressed only right after something was typed.
pub proof fn law_submit_follows_typing(step: LoginStep, worked: bool)
    requires
        login_step_after(step, worked) == LoginStep::Submit,
    ensures
        worked,
        step == LoginStep::Username || step == LoginStep::Password,
{
}

/// The order in which the form is filled: the account's tile first; where
/// there is none, the name; where there is no field for it, the password; and
/// what was typed is submitted. A tile that was clicked, and a form that was
/// submitted, end the round.
pub proof fn law_form_is_filled_in_order(step: LoginStep, worked: bool, r: LoginStep)
    requires
        call_ensures(next_login_step, (step, worked), r),
    ensures
        r == LoginStep::Username <==> step == LoginStep::Picker && !worked,
        r == LoginStep::Password <==> step == LoginStep::Username && !worked,
        r == LoginStep::Submit <==> worked && (step == LoginStep::Username || step
            == LoginStep::Password),
        r != LoginStep::Picker,
{
}

/// The browser is launched without a proxy, with a window unless it goes
/// without one, with the profile and the executable as they are given; only a
/// configured executable that is not there prevents it.
pub proof fn law_launch(
    headless: bool,
    profile: Option<String>,
    chromium: Option<String>,
    exists: bool,
    r: Result<LaunchPlan, ExecutableMissing>,
    missing: ExecutableMissing,
    words: String,
)
    requires
        call_ensures(launch_plan, (headless, &profile, &chromium, exists), r),
        call_ensures(ExecutableMissing::message, (&missing,), words),
    ensures
        words@ == "configured Chromium executable not found: "@ + missing.path@,
        r is Ok <==> chromium is None || exists,
        r matches Err(e) ==> (chromium matches Some(c) && e.path@ == c@),
        r matches Ok(plan) ==> {
            &&& plan.args@.len() == 1 && plan.args@[0]@ == "--no-proxy-server"@
            &&& plan.head <==> !headless
            &&& plan.width == 1280 && plan.height == 900
            &&& plan.user_data_dir is Some <==> profile is Some
            &&& plan.user_data_dir matches Some(d) ==> (profile matches Some(p) && d@ == p@)
            &&& plan.executable is Some <==> chromium is Some
            &&& plan.executable matches Some(d) ==> (chromium matches Some(c) && d@ == c@)
        },
{
    if let Ok(plan) = r {
        let t = texts(plan.args@);
        assert(t.len() == plan.args@.len());
        assert(t[0] == plan.args@[0]@);
    }
}

/// What the scripts in the page report: a tile was clicked unless the report
/// begins with `none`; the box is there unless the report is `none`, and was
/// ticked just now exactly if it is `clicked`.
pub proof fn law_script_reports(
    result: &str,
    clicked: bool,
    report: Option<&str>,
    device: RememberDevice,
)
    requires
        call_ensures(tile_was_clicked, (result,), clicked),
        call_ensures(remember_device, (report,), device),
    ensures
        !clicked <==> result@.len() >= 4 && result@[0] == 'n' && result@[1] == 'o' && result@[2]
            == 'n' && result@[3] == 'e',
        report is None ==> !device.found && !device.ticked,
        report matches Some(s) ==> {
            &&& device.found <==> s@ != "none"@
            &&& device.ticked <==> s@ == "clicked"@
        },
{
    reveal_strlit("none");
    let s = result@;
    if s.len() >= 4 {
        assert(s.subrange(0, 4)[0] == s[0] && s.subrange(0, 4)[1] == s[1] && s.subrange(0, 4)[2]
            == s[2] && s.subrange(0, 4)[3] == s[3]);
        if s[0] == 'n' && s[1] == 'o' && s[2] == 'n' && s[3] == 'e' {
            assert(s.subrange(0, 4) =~= "none"@);
        }
    }
}

/// The scripts put the literal where it belongs and nothing else; the picker's
/// script holds the name as a literal that is read back as the name.
pub proof fn law_scripts_hold_their_literal(
    literal: &str,
    reload: String,
    clear: String,
    name: &str,
    picker: String,
    encoded: String,
)
    requires
        call_ensures(reload_script_for, (literal,), reload),
        call_ensures(clear_script_for, (literal,), clear),
        call_ensures(account_picker_script, (name,), picker),
        call_ensures(serde_json_encode, (name,), encoded),
    ensures
        reload@ == "location.href = "@ + literal@,
        clear@ == "document.querySelector("@ + literal@ + ").value = ''"@,
        read_literal(encoded@) == Some((name@, Seq::<char>::empty())),
        picker@ == PICKER_HEAD@ + encoded@ + PICKER_TAIL@,
{
    law_literal_is_read_back(name@, Seq::empty());
    assert(encoded@ + Seq::<char>::empty() =~= encoded@);
}

/// In a literal a quote and a backslash have a backslash before them, and any
/// other character from the blank on stands for itself; the literal of two
/// texts one after the other is that of the first with that of the second
/// behind it, in one pair of quotes.
pub proof fn law_characters_of_a_literal(c: char, s: Seq<char>, t: Seq<char>)
    ensures
        c == '"' || c == '\\' ==> json_char(c) == seq!['\\', c],
        c as u32 >= 0x20 && c != '"' && c != '\\' ==> json_char(c) == seq![c],
        json_text(s) == seq!['"'] + json_body(s) + seq!['"'],
        json_body(s + t) == json_body(s) + json_body(t),
        json_body(seq![c]) == json_char(c),
    decreases t.len(),
{
    if t.len() > 0 {
        law_characters_of_a_literal(c, s, t.drop_last());
        assert((s + t).drop_last() =~= s + t.drop_last());
        assert((s + t).last() == t.last());
        assert(json_body(s + t) =~= json_body(s) + json_body(t));
    } else {
        assert(s + t =~= s);
        assert(json_body(s) + json_body(t) =~= json_body(s));
    }
    assert(seq![c].drop_last() =~= Seq::<char>::empty());
    assert(json_body(Seq::<char>::empty()) =~= Seq::<char>::empty());
    assert(json_body(seq![c]) =~= json_char(c));
}

} // verus!
