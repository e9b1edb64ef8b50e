//! The keystroke display buffer: an ordered run of display tokens with repeat
//! compression, a width budget and timed expiry.

use std::collections::VecDeque;
use vstd::prelude::*;
use vstd::string::*;
use crate::keys::{
    char_width, customize_key_name, is_modifier_code, customized, evdev_key_to_string, get_char_width,
    is_special_key, key_debug_name_of, lower_of, special_code, without_key_prefix, EV_KEY,
    KEY_LEFTALT, KEY_LEFTCTRL, KEY_LEFTMETA, KEY_LEFTSHIFT, KEY_RIGHTALT, KEY_RIGHTCTRL,
    KEY_RIGHTMETA, KEY_RIGHTSHIFT,
};
use crate::text::{decimal, digit_char, occurs_at, owned, push_char, push_decimal, str_eq};
use vstd::seq_lib::lemma_concat_associative;

verus! {

/// One raw event of an input device: a (type, code, value) triple.
#[derive(Clone, Copy, Debug, PartialEq, Eq, Structural)]
pub struct RawEvent {
    pub kind: u16,
    pub code: u16,
    pub value: i32,
}

/// One normalized key press.
#[derive(Debug)]
pub struct Keypress {
    /// Device key code.
    pub key: u16,
    /// XKB key code (the device code plus 8).
    pub keycode: u32,
    /// XKB key symbol, zero where no keymap was consulted.
    pub keysym: u32,
    /// Text the key produces, empty where no keymap was consulted.
    pub utf8_text: String,
    /// Display name of the key, such as `A` or `ENTER`.
    pub display_name: String,
    /// Non-printable, modifier or navigation key.
    pub is_special: bool,
    /// Milliseconds on the caller's monotonic clock.
    pub timestamp: u64,
}

/// What a display token stands for.
#[derive(Clone, Copy, Debug, PartialEq, Eq, Structural)]
pub enum TokenKind {
    /// A key's own display text.
    Key,
    /// A modifier prefix such as ` Ctrl+`.
    ModifierPrefix,
    /// The `ₓ` mark that opens a repeat count.
    RepeatMark,
    /// One subscript digit of a repeat count.
    RepeatDigit,
}

/// One renderable unit of the buffer.
#[derive(Debug)]
pub struct DisplayToken {
    pub text: String,
    pub kind: TokenKind,
    /// Display-column cost of `text`.
    pub width: usize,
    /// Milliseconds on the caller's monotonic clock.
    pub created_at: u64,
}

/// Mathematical form of a display token.
pub struct TokenView {
    pub text: Seq<char>,
    pub kind: TokenKind,
    pub width: nat,
    pub created_at: u64,
}

impl View for DisplayToken {
    type V = TokenView;

    open spec fn view(&self) -> TokenView {
        TokenView {
            text: self.text@,
            kind: self.kind,
            width: self.width as nat,
            created_at: self.created_at,
        }
    }
}

/// Which of the eight modifier keys have been pressed since the buffer was last empty.
#[derive(Clone, Copy, Debug, PartialEq, Eq, Structural)]
pub struct HeldModifiers {
    pub ctrl_left: bool,
    pub ctrl_right: bool,
    pub alt_left: bool,
    pub alt_right: bool,
    pub shift_left: bool,
    pub shift_right: bool,
    pub super_left: bool,
    pub super_right: bool,
}

/// Mathematical form of the buffer.
pub struct BufferState {
    pub tokens: Seq<TokenView>,
    pub timeout_ms: u64,
    pub length_limit: usize,
    pub modifiers: HeldModifiers,
    pub repeat_count: u32,
    pub last_combination: Seq<char>,
}

/// The keystroke display buffer.
#[derive(Debug)]
pub struct KeyBuffer {
    keys: VecDeque<DisplayToken>,
    timeout_ms: u64,
    length_limit: usize,
    modifiers: HeldModifiers,
    repeat_count: u32,
    last_combination: String,
}

pub open spec fn no_modifiers() -> HeldModifiers {
    HeldModifiers {
        ctrl_left: false,
        ctrl_right: false,
        alt_left: false,
        alt_right: false,
        shift_left: false,
        shift_right: false,
        super_left: false,
        super_right: false,
    }
}

/// A token whose width is the table width of its text.
pub open spec fn token(text: Seq<char>, kind: TokenKind, at: u64) -> TokenView {
    TokenView { text, kind, width: char_width(text), created_at: at }
}

/// Sum of the widths of a token run.
pub open spec fn total_width(s: Seq<TokenView>) -> nat
    decreases s.len(),
{
    if s.len() == 0 {
        0
    } else {
        s[0].width + total_width(s.drop_first())
    }
}

/// The run with its oldest tokens dropped until it fits in `limit`.
pub open spec fn evict(s: Seq<TokenView>, limit: nat) -> Seq<TokenView>
    decreases s.len(),
{
    if total_width(s) <= limit || s.len() == 0 {
        s
    } else {
        evict(s.drop_first(), limit)
    }
}

/// Has a token created at `at` outlived `timeout` at time `now`?
pub open spec fn expired(at: u64, now: u64, timeout: u64) -> bool {
    (if now >= at { now - at } else { 0 }) >= timeout
}

/// The tokens of a run that have not expired at `now`, in order.
pub open spec fn live(s: Seq<TokenView>, now: u64, timeout: u64) -> Seq<TokenView>
    decreases s.len(),
{
    if s.len() == 0 {
        s
    } else {
        let rest = live(s.drop_last(), now, timeout);
        if expired(s.last().created_at, now, timeout) {
            rest
        } else {
            rest.push(s.last())
        }
    }
}

pub open spec fn is_repeat_kind(k: TokenKind) -> bool {
    k == TokenKind::RepeatMark || k == TokenKind::RepeatDigit
}

/// The run without its trailing repeat-indicator tokens.
pub open spec fn strip_repeat(s: Seq<TokenView>) -> Seq<TokenView>
    decreases s.len(),
{
    if s.len() > 0 && is_repeat_kind(s.last().kind) {
        strip_repeat(s.drop_last())
    } else {
        s
    }
}

/// The display text of a run: its token texts, concatenated.
pub open spec fn joined(s: Seq<TokenView>) -> Seq<char>
    decreases s.len(),
{
    if s.len() == 0 {
        Seq::empty()
    } else {
        joined(s.drop_last()) + s.last().text
    }
}

/// The modifier set after a key press: a modifier key marks itself held.
pub open spec fn press_modifier(m: HeldModifiers, code: u16) -> HeldModifiers {
    if code == KEY_LEFTCTRL {
        HeldModifiers { ctrl_left: true, ..m }
    } else if code == KEY_RIGHTCTRL {
        HeldModifiers { ctrl_right: true, ..m }
    } else if code == KEY_LEFTALT {
        HeldModifiers { alt_left: true, ..m }
    } else if code == KEY_RIGHTALT {
        HeldModifiers { alt_right: true, ..m }
    } else if code == KEY_LEFTSHIFT {
        HeldModifiers { shift_left: true, ..m }
    } else if code == KEY_RIGHTSHIFT {
        HeldModifiers { shift_right: true, ..m }
    } else if code == KEY_LEFTMETA {
        HeldModifiers { super_left: true, ..m }
    } else if code == KEY_RIGHTMETA {
        HeldModifiers { super_right: true, ..m }
    } else {
        m
    }
}

pub open spec fn name_if(held: bool, name: Seq<char>) -> Seq<char> {
    if held { name } else { Seq::empty() }
}

/// Names of the held modifiers in the fixed order Shift, Ctrl, Super, Alt.
pub open spec fn held_names(m: HeldModifiers) -> Seq<char> {
    name_if(m.shift_left, "Shift_L"@) + name_if(m.shift_right, "Shift_R"@) + name_if(
        m.ctrl_left,
        "Ctrl_L"@,
    ) + name_if(m.ctrl_right, "Ctrl_R"@) + name_if(m.super_left, "Super_L"@) + name_if(
        m.super_right,
        "Super_R"@,
    ) + name_if(m.alt_left, "Alt_L"@) + name_if(m.alt_right, "Alt_R"@)
}

/// The identity of a key together with the modifiers held for it.
pub open spec fn combination(m: HeldModifiers, name: Seq<char>) -> Seq<char> {
    held_names(m) + name
}

pub open spec fn prefix_if(held: bool, text: Seq<char>, at: u64) -> Seq<TokenView> {
    if held { seq![token(text, TokenKind::ModifierPrefix, at)] } else { Seq::empty() }
}

/// One prefix token per held modifier, in the order Shift, Ctrl, Super, Alt.
pub open spec fn prefix_tokens(m: HeldModifiers, at: u64) -> Seq<TokenView> {
    prefix_if(m.shift_left, " Shift+"@, at) + prefix_if(m.shift_right, " Shift+"@, at)
        + prefix_if(m.ctrl_left, " Ctrl+"@, at) + prefix_if(m.ctrl_right, " Ctrl+"@, at)
        + prefix_if(m.super_left, " Super+"@, at) + prefix_if(m.super_right, " Super+"@, at)
        + prefix_if(m.alt_left, " Alt+"@, at) + prefix_if(m.alt_right, " Alt+"@, at)
}

/// The subscript form of a decimal digit.
pub open spec fn subscript_char(c: char) -> char {
    if c == '0' { '₀' }
    else if c == '1' { '₁' }
    else if c == '2' { '₂' }
    else if c == '3' { '₃' }
    else if c == '4' { '₄' }
    else if c == '5' { '₅' }
    else if c == '6' { '₆' }
    else if c == '7' { '₇' }
    else if c == '8' { '₈' }
    else { '₉' }
}

/// One subscript-digit token per digit.
pub open spec fn digit_tokens(digits: Seq<char>, at: u64) -> Seq<TokenView> {
    Seq::new(digits.len(), |i: int| token(seq![subscript_char(digits[i])], TokenKind::RepeatDigit, at))
}

/// The repeat indicator for a count: the `ₓ` mark, then the count's digits as subscripts.
pub open spec fn repeat_tokens(n: nat, at: u64) -> Seq<TokenView> {
    seq![token("ₓ"@, TokenKind::RepeatMark, at)] + digit_tokens(decimal(n), at)
}

pub open spec fn saturating_inc(n: u32) -> u32 {
    if n < u32::MAX { (n + 1) as u32 } else { n }
}

/// The state of an empty buffer with the given settings.
pub open spec fn emptied(s: BufferState) -> BufferState {
    BufferState {
        tokens: Seq::empty(),
        modifiers: no_modifiers(),
        repeat_count: 1,
        last_combination: Seq::empty(),
        ..s
    }
}

/// Will a key with this name and code count as a repeat of the last combination?
pub open spec fn is_repeat(s: BufferState, key: u16, name: Seq<char>) -> bool {
    combination(press_modifier(s.modifiers, key), name) == s.last_combination && s.tokens.len() > 0
}

/// The buffer after one key press, given the text the key itself displays as.
#[verifier::opaque]
pub open spec fn after_add(
    s: BufferState,
    key: u16,
    name: Seq<char>,
    shown: Seq<char>,
    at: u64,
) -> BufferState {
    let m = press_modifier(s.modifiers, key);
    let combo = combination(m, name);
    let rc = if is_repeat(s, key, name) { saturating_inc(s.repeat_count) } else { 1u32 };
    let grown = if is_repeat(s, key, name) {
        strip_repeat(s.tokens) + (if rc > 2 { repeat_tokens(rc as nat, at) } else { Seq::empty() })
    } else {
        s.tokens + prefix_tokens(m, at) + seq![token(shown, TokenKind::Key, at)]
    };
    let kept = evict(grown, s.length_limit as nat);
    if kept.len() == 0 {
        emptied(s)
    } else {
        BufferState {
            tokens: kept,
            modifiers: m,
            repeat_count: rc,
            last_combination: if is_repeat(s, key, name) { s.last_combination } else { combo },
            ..s
        }
    }
}

/// The buffer after dropping the tokens that have expired at `now`.
pub open spec fn after_cleanup(s: BufferState, now: u64) -> BufferState {
    let kept = live(s.tokens, now, s.timeout_ms);
    if kept.len() == 0 {
        emptied(s)
    } else {
        BufferState { tokens: kept, ..s }
    }
}

/// Well-formedness: widths follow the table, the width budget holds, and an
/// empty buffer carries no modifier or repeat state.
pub open spec fn well_formed(s: BufferState) -> bool {
    &&& forall|i: int| 0 <= i < s.tokens.len() ==> #[trigger] s.tokens[i].width == char_width(s.tokens[i].text)
    &&& total_width(s.tokens) <= s.length_limit
    &&& s.tokens.len() == 0 ==> s == emptied(s)
}

pub open spec fn views(s: Seq<DisplayToken>) -> Seq<TokenView> {
    s.map_values(|t: DisplayToken| t@)
}

impl View for KeyBuffer {
    type V = BufferState;

    closed spec fn view(&self) -> BufferState {
        BufferState {
            tokens: views(self.keys@),
            timeout_ms: self.timeout_ms,
            length_limit: self.length_limit,
            modifiers: self.modifiers,
            repeat_count: self.repeat_count,
            last_combination: self.last_combination@,
        }
    }
}

/// A token of `kind` showing `text`, created at `at`.
fn make_token(text: String, kind: TokenKind, at: u64) -> (t: DisplayToken)
    ensures
        t@ == token(text@, kind, at),
{
    let width = get_char_width(text.as_str());
    DisplayToken { text, kind, width, created_at: at }
}

/// Appends a modifier-prefix token when `held`.
fn push_prefix_if(keys: &mut VecDeque<DisplayToken>, held: bool, text: &str, at: u64)
    ensures
        views(final(keys)@) == views(old(keys)@) + prefix_if(held, text@, at),
{
    if held {
        let t = make_token(owned(text), TokenKind::ModifierPrefix, at);
        keys.push_back(t);
    }
    assert(views(final(keys)@) =~= views(old(keys)@) + prefix_if(held, text@, at));
}

/// Appends one prefix token per held modifier.
fn push_prefixes(keys: &mut VecDeque<DisplayToken>, m: HeldModifiers, at: u64)
    ensures
        views(final(keys)@) == views(old(keys)@) + prefix_tokens(m, at),
{
    let ghost v0 = views(keys@);
    let ghost o1 = prefix_if(m.shift_left, " Shift+"@, at);
    let ghost o2 = prefix_if(m.shift_right, " Shift+"@, at);
    let ghost o3 = prefix_if(m.ctrl_left, " Ctrl+"@, at);
    let ghost o4 = prefix_if(m.ctrl_right, " Ctrl+"@, at);
    let ghost o5 = prefix_if(m.super_left, " Super+"@, at);
    let ghost o6 = prefix_if(m.super_right, " Super+"@, at);
    let ghost o7 = prefix_if(m.alt_left, " Alt+"@, at);
    let ghost o8 = prefix_if(m.alt_right, " Alt+"@, at);
    push_prefix_if(keys, m.shift_left, " Shift+", at);
    push_prefix_if(keys, m.shift_right, " Shift+", at);
    proof { lemma_concat_associative(v0, o1, o2); }
    push_prefix_if(keys, m.ctrl_left, " Ctrl+", at);
    proof { lemma_concat_associative(v0, o1 + o2, o3); }
    push_prefix_if(keys, m.ctrl_right, " Ctrl+", at);
    proof { lemma_concat_associative(v0, o1 + o2 + o3, o4); }
    push_prefix_if(keys, m.super_left, " Super+", at);
    proof { lemma_concat_associative(v0, o1 + o2 + o3 + o4, o5); }
    push_prefix_if(keys, m.super_right, " Super+", at);
    proof { lemma_concat_associative(v0, o1 + o2 + o3 + o4 + o5, o6); }
    push_prefix_if(keys, m.alt_left, " Alt+", at);
    proof { lemma_concat_associative(v0, o1 + o2 + o3 + o4 + o5 + o6, o7); }
    push_prefix_if(keys, m.alt_right, " Alt+", at);
    proof { lemma_concat_associative(v0, o1 + o2 + o3 + o4 + o5 + o6 + o7, o8); }
}

/// The subscript form of a decimal digit.
fn subscript(c: char) -> (r: char)
    ensures
        r == subscript_char(c),
{
    if c == '0' { '₀' }
    else if c == '1' { '₁' }
    else if c == '2' { '₂' }
    else if c == '3' { '₃' }
    else if c == '4' { '₄' }
    else if c == '5' { '₅' }
    else if c == '6' { '₆' }
    else if c == '7' { '₇' }
    else if c == '8' { '₈' }
    else { '₉' }
}

/// Appends the repeat indicator for `n`.
fn push_repeat_tokens(keys: &mut VecDeque<DisplayToken>, n: u32, at: u64)
    ensures
        views(final(keys)@) == views(old(keys)@) + repeat_tokens(n as nat, at),
{
    let ghost v0 = views(keys@);
    keys.push_back(make_token(owned("ₓ"), TokenKind::RepeatMark, at));
    let mut digits = String::new();
    push_decimal(&mut digits, n as u64);
    assert(digits@ =~= decimal(n as nat));
    let len = digits.as_str().unicode_len();
    let mut i: usize = 0;
    while i < len
        invariant
            len == digits@.len(),
            digits@ == decimal(n as nat),
            i <= len,
            views(keys@) == v0 + seq![token("ₓ"@, TokenKind::RepeatMark, at)] + digit_tokens(
                digits@,
                at,
            ).subrange(0, i as int),
        decreases len - i,
    {
        let c = digits.as_str().get_char(i);
        let mut text = String::new();
        push_char(&mut text, subscript(c));
        assert(text@ =~= seq![subscript_char(digits@[i as int])]);
        let t = make_token(text, TokenKind::RepeatDigit, at);
        assert(t@ == digit_tokens(digits@, at)[i as int]);
        let ghost before = keys@;
        keys.push_back(t);
        assert(views(keys@) =~= views(before).push(t@));
        i = i + 1;
        assert(views(keys@) =~= v0 + seq![token("ₓ"@, TokenKind::RepeatMark, at)] + digit_tokens(
            digits@,
            at,
        ).subrange(0, i as int));
    }
    assert(digit_tokens(digits@, at).subrange(0, len as int) =~= digit_tokens(digits@, at));
    assert(views(keys@) =~= v0 + repeat_tokens(n as nat, at));
}

/// Removes the trailing repeat-indicator tokens.
fn strip_repeat_tokens(keys: &mut VecDeque<DisplayToken>)
    ensures
        views(final(keys)@) == strip_repeat(views(old(keys)@)),
{
    while keys.len() > 0 && (keys[keys.len() - 1].kind == TokenKind::RepeatMark || keys[keys.len()
        - 1].kind == TokenKind::RepeatDigit)
        invariant
            strip_repeat(views(keys@)) == strip_repeat(views(old(keys)@)),
        decreases keys@.len(),
    {
        let ghost before = views(keys@);
        keys.pop_back();
        assert(views(keys@) =~= before.drop_last());
    }
}

/// Sum of the widths of all tokens; it cannot overflow a `u128`, since each
/// width and the token count fit in a `usize`.
fn width_sum(keys: &VecDeque<DisplayToken>) -> (r: u128)
    ensures
        r == total_width(views(keys@)),
{
    let n = keys.len();
    let ghost v = views(keys@);
    let mut acc: u128 = 0;
    let mut i: usize = n;
    while i > 0
        invariant
            n == keys@.len(),
            v == views(keys@),
            i <= n,
            acc == total_width(v.subrange(i as int, n as int)),
            acc <= (n - i) * (usize::MAX as int),
        decreases i,
    {
        let w = keys[i - 1].width;
        proof {
            assert(v.subrange(i - 1, n as int).drop_first() =~= v.subrange(i as int, n as int));
            assert((n - i) * (usize::MAX as int) + usize::MAX as int == (n - i + 1) * (usize::MAX as int))
                by (nonlinear_arith);
            assert((n - i + 1) * (usize::MAX as int) <= (usize::MAX as int) * (usize::MAX as int))
                by (nonlinear_arith)
                requires
                    n - i + 1 <= usize::MAX,
            ;
            assert((usize::MAX as int) * (usize::MAX as int) < u128::MAX) by (nonlinear_arith);
        }
        acc = acc + w as u128;
        i = i - 1;
    }
    assert(v.subrange(0, n as int) =~= v);
    acc
}

/// Drops the oldest tokens until the widths fit in `limit`.
fn evict_to_limit(keys: &mut VecDeque<DisplayToken>, limit: usize)
    ensures
        views(final(keys)@) == evict(views(old(keys)@), limit as nat),
{
    let mut total = width_sum(keys);
    while total > limit as u128 && keys.len() > 0
        invariant
            total == total_width(views(keys@)),
            evict(views(keys@), limit as nat) == evict(views(old(keys)@), limit as nat),
        decreases keys@.len(),
    {
        let ghost before = views(keys@);
        let w = keys[0].width;
        keys.pop_front();
        assert(views(keys@) =~= before.drop_first());
        total = total - w as u128;
    }
}

/// Is a token created at `at` expired at `now`?
fn is_expired(at: u64, now: u64, timeout: u64) -> (r: bool)
    ensures
        r == expired(at, now, timeout),
{
    let age = if now >= at { now - at } else { 0 };
    age >= timeout
}

/// Keeps only the tokens that have not expired at `now`, in order.
fn retain_live(keys: &mut VecDeque<DisplayToken>, now: u64, timeout: u64)
    ensures
        views(final(keys)@) == live(views(old(keys)@), now, timeout),
{
    let ghost v = views(keys@);
    let n = keys.len();
    let mut i: usize = 0;
    while i < n
        invariant
            n == v.len(),
            i <= n,
            views(keys@) == v.subrange(i as int, n as int) + live(v.subrange(0, i as int), now, timeout),
        decreases n - i,
    {
        let ghost before = views(keys@);
        assert(before.len() == keys@.len());
        assert(before.len() >= n - i);
        assert(keys@.len() > 0);
        assert(before[0] == v[i as int]);
        let t = keys.pop_front().unwrap();
        assert(t@ == v[i as int]);
        let ghost mid = keys@;
        assert(views(mid) =~= before.drop_first());
        assert(views(mid) =~= v.subrange(i + 1, n as int) + live(v.subrange(0, i as int), now, timeout));
        let ghost pre = v.subrange(0, i + 1);
        assert(pre.drop_last() =~= v.subrange(0, i as int));
        assert(pre.last() == v[i as int]);
        if !is_expired(t.created_at, now, timeout) {
            keys.push_back(t);
            assert(views(keys@) =~= views(mid).push(t@));
        }
        i = i + 1;
        assert(views(keys@) =~= v.subrange(i as int, n as int) + live(v.subrange(0, i as int), now, timeout));
    }
    assert(v.subrange(0, n as int) =~= v);
    assert(views(keys@) =~= live(v, now, timeout));
}

/// Every token's width is the table width of its text.
pub open spec fn widths_follow_table(s: Seq<TokenView>) -> bool {
    forall|i: int| 0 <= i < s.len() ==> #[trigger] s[i].width == char_width(s[i].text)
}

proof fn lemma_total_push(s: Seq<TokenView>, x: TokenView)
    ensures
        total_width(s.push(x)) == total_width(s) + x.width,
    decreases s.len(),
{
    if s.len() > 0 {
        assert(s.push(x).drop_first() =~= s.drop_first().push(x));
        assert(s.push(x)[0] == s[0]);
        lemma_total_push(s.drop_first(), x);
    } else {
        assert(s.push(x).drop_first() =~= Seq::<TokenView>::empty());
        assert(total_width(s.push(x).drop_first()) == 0);
    }
}

proof fn lemma_evict(s: Seq<TokenView>, limit: nat)
    ensures
        total_width(evict(s, limit)) <= limit,
        widths_follow_table(s) ==> widths_follow_table(evict(s, limit)),
    decreases s.len(),
{
    if total_width(s) <= limit || s.len() == 0 {
    } else {
        lemma_evict(s.drop_first(), limit);
        if widths_follow_table(s) {
            assert(widths_follow_table(s.drop_first())) by {
                assert forall|i: int| 0 <= i < s.drop_first().len() implies #[trigger] s.drop_first()[i].width
                    == char_width(s.drop_first()[i].text) by {
                    assert(s.drop_first()[i] == s[i + 1]);
                }
            }
        }
    }
}

proof fn lemma_strip_repeat(s: Seq<TokenView>)
    ensures
        widths_follow_table(s) ==> widths_follow_table(strip_repeat(s)),
        strip_repeat(s).len() <= s.len(),
        strip_repeat(s).len() == 0 ==> s.len() == 0 || is_repeat_kind(s[0].kind),
        strip_repeat(s) == s.subrange(0, strip_repeat(s).len() as int),
    decreases s.len(),
{
    if s.len() > 0 && is_repeat_kind(s.last().kind) {
        lemma_strip_repeat(s.drop_last());
        assert(s.drop_last().subrange(0, strip_repeat(s).len() as int) =~= s.subrange(
            0,
            strip_repeat(s).len() as int,
        ));
        if s.drop_last().len() > 0 {
            assert(s.drop_last()[0] == s[0]);
        }
    } else {
        assert(s.subrange(0, s.len() as int) =~= s);
    }
}

proof fn lemma_live(s: Seq<TokenView>, now: u64, timeout: u64)
    ensures
        total_width(live(s, now, timeout)) <= total_width(s),
        widths_follow_table(s) ==> widths_follow_table(live(s, now, timeout)),
        forall|i: int| 0 <= i < live(s, now, timeout).len() ==> !expired(#[trigger] live(s, now, timeout)[i].created_at, now, timeout),
        live(live(s, now, timeout), now, timeout) == live(s, now, timeout),
        live(s, now, timeout).len() <= s.len(),
    decreases s.len(),
{
    if s.len() > 0 {
        let p = s.drop_last();
        let r = live(p, now, timeout);
        lemma_live(p, now, timeout);
        assert(p.push(s.last()) =~= s);
        lemma_total_push(p, s.last());
        if widths_follow_table(s) {
            assert(widths_follow_table(p)) by {
                assert forall|i: int| 0 <= i < p.len() implies #[trigger] p[i].width == char_width(p[i].text) by {
                    assert(p[i] == s[i]);
                }
            }
        }
        if !expired(s.last().created_at, now, timeout) {
            lemma_total_push(r, s.last());
            let q = r.push(s.last());
            assert(q.drop_last() =~= r);
            assert(q.last() == s.last());
        }
    }
}

proof fn lemma_widths_concat(a: Seq<TokenView>, b: Seq<TokenView>)
    requires
        widths_follow_table(a),
        widths_follow_table(b),
    ensures
        widths_follow_table(a + b),
{
    assert forall|i: int| 0 <= i < (a + b).len() implies #[trigger] (a + b)[i].width == char_width((a + b)[i].text) by {
        if i < a.len() {
            assert((a + b)[i] == a[i]);
        } else {
            assert((a + b)[i] == b[i - a.len()]);
        }
    }
}

proof fn lemma_prefix_if_widths(held: bool, text: Seq<char>, at: u64)
    ensures
        widths_follow_table(prefix_if(held, text, at)),
{
}

proof fn lemma_new_tokens_widths(m: HeldModifiers, n: nat, shown: Seq<char>, at: u64)
    ensures
        widths_follow_table(prefix_tokens(m, at)),
        widths_follow_table(repeat_tokens(n, at)),
        widths_follow_table(seq![token(shown, TokenKind::Key, at)]),
{
    let o1 = prefix_if(m.shift_left, " Shift+"@, at);
    let o2 = prefix_if(m.shift_right, " Shift+"@, at);
    let o3 = prefix_if(m.ctrl_left, " Ctrl+"@, at);
    let o4 = prefix_if(m.ctrl_right, " Ctrl+"@, at);
    let o5 = prefix_if(m.super_left, " Super+"@, at);
    let o6 = prefix_if(m.super_right, " Super+"@, at);
    let o7 = prefix_if(m.alt_left, " Alt+"@, at);
    let o8 = prefix_if(m.alt_right, " Alt+"@, at);
    lemma_prefix_if_widths(m.shift_left, " Shift+"@, at);
    lemma_prefix_if_widths(m.shift_right, " Shift+"@, at);
    lemma_prefix_if_widths(m.ctrl_left, " Ctrl+"@, at);
    lemma_prefix_if_widths(m.ctrl_right, " Ctrl+"@, at);
    lemma_prefix_if_widths(m.super_left, " Super+"@, at);
    lemma_prefix_if_widths(m.super_right, " Super+"@, at);
    lemma_prefix_if_widths(m.alt_left, " Alt+"@, at);
    lemma_prefix_if_widths(m.alt_right, " Alt+"@, at);
    lemma_widths_concat(o1, o2);
    lemma_widths_concat(o1 + o2, o3);
    lemma_widths_concat(o1 + o2 + o3, o4);
    lemma_widths_concat(o1 + o2 + o3 + o4, o5);
    lemma_widths_concat(o1 + o2 + o3 + o4 + o5, o6);
    lemma_widths_concat(o1 + o2 + o3 + o4 + o5 + o6, o7);
    lemma_widths_concat(o1 + o2 + o3 + o4 + o5 + o6 + o7, o8);
    let r = repeat_tokens(n, at);
    assert forall|i: int| 0 <= i < r.len() implies #[trigger] r[i].width == char_width(r[i].text) by {
        if i > 0 {
            assert(r[i] == digit_tokens(decimal(n), at)[i - 1]);
        }
    }
}

/// Adding a key press keeps the buffer well formed.
proof fn lemma_add_well_formed(s: BufferState, key: u16, name: Seq<char>, shown: Seq<char>, at: u64)
    requires
        well_formed(s),
    ensures
        well_formed(after_add(s, key, name, shown, at)),
{
    reveal(after_add);
    let m = press_modifier(s.modifiers, key);
    let rc = if is_repeat(s, key, name) { saturating_inc(s.repeat_count) } else { 1u32 };
    lemma_new_tokens_widths(m, rc as nat, shown, at);
    let grown = if is_repeat(s, key, name) {
        lemma_strip_repeat(s.tokens);
        lemma_widths_concat(
            strip_repeat(s.tokens),
            if rc > 2 { repeat_tokens(rc as nat, at) } else { Seq::empty() },
        );
        strip_repeat(s.tokens) + (if rc > 2 { repeat_tokens(rc as nat, at) } else { Seq::empty() })
    } else {
        lemma_widths_concat(s.tokens, prefix_tokens(m, at));
        lemma_widths_concat(s.tokens + prefix_tokens(m, at), seq![token(shown, TokenKind::Key, at)]);
        s.tokens + prefix_tokens(m, at) + seq![token(shown, TokenKind::Key, at)]
    };
    lemma_evict(grown, s.length_limit as nat);
}

/// Dropping expired tokens keeps the buffer well formed.
proof fn lemma_cleanup_well_formed(s: BufferState, now: u64)
    requires
        well_formed(s),
    ensures
        well_formed(after_cleanup(s, now)),
{
    lemma_live(s.tokens, now, s.timeout_ms);
}

/// The modifier set after pressing `code`.
fn press(m: HeldModifiers, code: u16) -> (r: HeldModifiers)
    ensures
        r == press_modifier(m, code),
{
    if code == KEY_LEFTCTRL {
        HeldModifiers { ctrl_left: true, ..m }
    } else if code == KEY_RIGHTCTRL {
        HeldModifiers { ctrl_right: true, ..m }
    } else if code == KEY_LEFTALT {
        HeldModifiers { alt_left: true, ..m }
    } else if code == KEY_RIGHTALT {
        HeldModifiers { alt_right: true, ..m }
    } else if code == KEY_LEFTSHIFT {
        HeldModifiers { shift_left: true, ..m }
    } else if code == KEY_RIGHTSHIFT {
        HeldModifiers { shift_right: true, ..m }
    } else if code == KEY_LEFTMETA {
        HeldModifiers { super_left: true, ..m }
    } else if code == KEY_RIGHTMETA {
        HeldModifiers { super_right: true, ..m }
    } else {
        m
    }
}

fn append_if(s: &mut String, held: bool, name: &str)
    ensures
        final(s)@ == old(s)@ + name_if(held, name@),
{
    if held {
        s.append(name);
    } else {
        assert(old(s)@ + name_if(held, name@) =~= old(s)@);
    }
}

/// The combination string for a key name under the held modifiers.
pub fn combination_string(m: HeldModifiers, name: &str) -> (r: String)
    ensures
        r@ == combination(m, name@),
{
    let mut r = String::new();
    let ghost e = r@;
    let ghost o1 = name_if(m.shift_left, "Shift_L"@);
    let ghost o2 = name_if(m.shift_right, "Shift_R"@);
    let ghost o3 = name_if(m.ctrl_left, "Ctrl_L"@);
    let ghost o4 = name_if(m.ctrl_right, "Ctrl_R"@);
    let ghost o5 = name_if(m.super_left, "Super_L"@);
    let ghost o6 = name_if(m.super_right, "Super_R"@);
    let ghost o7 = name_if(m.alt_left, "Alt_L"@);
    let ghost o8 = name_if(m.alt_right, "Alt_R"@);
    append_if(&mut r, m.shift_left, "Shift_L");
    assert(r@ =~= o1);
    append_if(&mut r, m.shift_right, "Shift_R");
    append_if(&mut r, m.ctrl_left, "Ctrl_L");
    append_if(&mut r, m.ctrl_right, "Ctrl_R");
    append_if(&mut r, m.super_left, "Super_L");
    append_if(&mut r, m.super_right, "Super_R");
    append_if(&mut r, m.alt_left, "Alt_L");
    append_if(&mut r, m.alt_right, "Alt_R");
    r.append(name);
    r
}

impl KeyBuffer {
    /// The buffer's internal consistency.
    pub open spec fn wf(&self) -> bool {
        well_formed(self@)
    }

    /// An empty buffer with the given expiry age and width budget.
    pub fn new(timeout_ms: u32, length_limit: usize) -> (r: Self)
        ensures
            r.wf(),
            r@ == emptied(r@),
            r@.timeout_ms == timeout_ms as u64,
            r@.length_limit == length_limit,
    {
        let r = KeyBuffer {
            keys: VecDeque::new(),
            timeout_ms: timeout_ms as u64,
            length_limit,
            modifiers: HeldModifiers {
                ctrl_left: false,
                ctrl_right: false,
                alt_left: false,
                alt_right: false,
                shift_left: false,
                shift_right: false,
                super_left: false,
                super_right: false,
            },
            repeat_count: 1,
            last_combination: String::new(),
        };
        assert(r@.tokens =~= Seq::<TokenView>::empty());
        r
    }

    /// Is no token live?
    pub fn is_empty(&self) -> (r: bool)
        ensures
            r == (self@.tokens.len() == 0),
    {
        self.keys.len() == 0
    }

    /// The expiry age in milliseconds.
    pub fn timeout_ms(&self) -> (r: u64)
        ensures
            r == self@.timeout_ms,
    {
        self.timeout_ms
    }

    /// The width budget.
    pub fn length_limit(&self) -> (r: usize)
        ensures
            r == self@.length_limit,
    {
        self.length_limit
    }

    /// How many times in a row the last combination was added.
    pub fn repeat_count(&self) -> (r: u32)
        ensures
            r == self@.repeat_count,
    {
        self.repeat_count
    }

    /// The live tokens, oldest first, for the renderer.
    pub fn current_tokens(&self) -> (r: Vec<DisplayToken>)
        ensures
            views(r@) == self@.tokens,
    {
        let ghost v = self@.tokens;
        let mut r: Vec<DisplayToken> = Vec::new();
        let mut i: usize = 0;
        while i < self.keys.len()
            invariant
                v == views(self.keys@),
                i <= self.keys@.len(),
                views(r@) == v.subrange(0, i as int),
            decreases self.keys@.len() - i,
        {
            let t = &self.keys[i];
            let c = DisplayToken { text: t.text.clone(), kind: t.kind, width: t.width, created_at: t.created_at };
            let ghost before = r@;
            r.push(c);
            assert(views(r@) =~= views(before).push(c@));
            i = i + 1;
            assert(views(r@) =~= v.subrange(0, i as int));
        }
        assert(v.subrange(0, v.len() as int) =~= v);
        r
    }

    /// The display text: every token's text, oldest first.
    pub fn get_display_text(&self) -> (r: String)
        ensures
            r@ == joined(self@.tokens),
    {
        let ghost v = self@.tokens;
        let n = self.keys.len();
        let mut text = String::new();
        let mut i: usize = 0;
        while i < n
            invariant
                v == views(self.keys@),
                n == v.len(),
                i <= n,
                text@ == joined(v.subrange(0, i as int)),
            decreases n - i,
        {
            let ghost pre = v.subrange(0, i + 1);
            assert(pre.drop_last() =~= v.subrange(0, i as int));
            text.append(self.keys[i].text.as_str());
            i = i + 1;
        }
        assert(v.subrange(0, n as int) =~= v);
        text
    }
    /// Back to the empty-buffer state: no modifiers, no repeat run.
    fn reset_state(&mut self)
        ensures
            final(self).keys == old(self).keys,
            final(self).timeout_ms == old(self).timeout_ms,
            final(self).length_limit == old(self).length_limit,
            final(self).modifiers == no_modifiers(),
            final(self).repeat_count == 1,
            final(self).last_combination@ == Seq::<char>::empty(),
    {
        self.modifiers = HeldModifiers {
            ctrl_left: false,
            ctrl_right: false,
            alt_left: false,
            alt_right: false,
            shift_left: false,
            shift_right: false,
            super_left: false,
            super_right: false,
        };
        self.repeat_count = 1;
        self.last_combination = String::new();
    }

    /// Adds a key press whose own token shows `shown`: a repeat of the last
    /// combination replaces the repeat indicator, anything else appends the
    /// modifier prefixes and the key's token; then the oldest tokens are
    /// evicted until the width budget holds.
    #[verifier::rlimit(50)]
    pub fn add_keypress_shown(&mut self, keypress: Keypress, shown: String)
        requires
            old(self).wf(),
        ensures
            final(self).wf(),
            final(self)@ == after_add(
                old(self)@,
                keypress.key,
                keypress.display_name@,
                shown@,
                keypress.timestamp,
            ),
    {
        let ghost s0 = self@;
        let at = keypress.timestamp;
        let m = press(self.modifiers, keypress.key);
        self.modifiers = m;
        let combination = combination_string(m, keypress.display_name.as_str());
        if str_eq(combination.as_str(), self.last_combination.as_str()) && self.keys.len() > 0 {
            if self.repeat_count < u32::MAX {
                self.repeat_count = self.repeat_count + 1;
            }
            strip_repeat_tokens(&mut self.keys);
            if self.repeat_count > 2 {
                push_repeat_tokens(&mut self.keys, self.repeat_count, at);
            } else {
                assert(views(self.keys@) =~= views(self.keys@) + Seq::<TokenView>::empty());
            }
        } else {
            self.repeat_count = 1;
            self.last_combination = combination;
            push_prefixes(&mut self.keys, m, at);
            let t = make_token(shown, TokenKind::Key, at);
            let ghost before = self.keys@;
            self.keys.push_back(t);
            assert(views(self.keys@) =~= views(before) + seq![t@]);
        }
        evict_to_limit(&mut self.keys, self.length_limit);
        if self.keys.len() == 0 {
            self.reset_state();
            assert(self@.tokens =~= Seq::<TokenView>::empty());
        }
        proof {
            reveal(after_add);
            lemma_add_well_formed(s0, keypress.key, keypress.display_name@, shown@, at);
        }
    }

    /// Adds a key press, its own token showing the key's customized name.
    pub fn add_keypress(&mut self, keypress: Keypress)
        requires
            old(self).wf(),
        ensures
            final(self).wf(),
            final(self)@ == after_add(
                old(self)@,
                keypress.key,
                keypress.display_name@,
                customized(keypress.display_name@, lower_of(keypress.display_name@)),
                keypress.timestamp,
            ),
    {
        let shown = customize_key_name(keypress.display_name.as_str());
        self.add_keypress_shown(keypress, shown);
    }

    /// Drops every token that has expired at `now` (milliseconds on the clock
    /// the tokens were stamped with); an emptied buffer forgets its modifier and
    /// repeat state. Returns whether any token was dropped.
    pub fn cleanup_expired(&mut self, now: u64) -> (changed: bool)
        requires
            old(self).wf(),
        ensures
            final(self).wf(),
            final(self)@ == after_cleanup(old(self)@, now),
            changed == (final(self)@.tokens.len() != old(self)@.tokens.len()),
    {
        let ghost s0 = self@;
        let initial_len = self.keys.len();
        retain_live(&mut self.keys, now, self.timeout_ms);
        let changed = initial_len != self.keys.len();
        if self.keys.len() == 0 {
            self.reset_state();
            assert(self@.tokens =~= Seq::<TokenView>::empty());
        }
        proof {
            lemma_cleanup_well_formed(s0, now);
        }
        changed
    }
}

/// Turns a raw device event into a key press: only key-type press events
/// (value 1) qualify; releases, auto-repeats and other event types give `None`.
/// The display name is the evdev key name without its `KEY_` prefix.
pub fn process_input_event(event: RawEvent, now: u64) -> (r: Option<Keypress>)
    ensures
        r is Some <==> (event.kind == EV_KEY && event.value == 1),
        r matches Some(kp) ==> {
            &&& kp.key == event.code
            &&& kp.keycode == event.code as u32 + 8
            &&& kp.keysym == 0
            &&& kp.utf8_text@ == Seq::<char>::empty()
            &&& kp.display_name@ == without_key_prefix(key_debug_name_of(event.code))
            &&& kp.is_special == special_code(event.code)
            &&& kp.timestamp == now
        },
{
    if event.kind != EV_KEY {
        return None;
    }
    if event.value != 1 {
        return None;
    }
    let code = event.code;
    Some(
        Keypress {
            key: code,
            keycode: code as u32 + 8,
            keysym: 0,
            utf8_text: String::new(),
            display_name: evdev_key_to_string(code),
            is_special: is_special_key(code),
            timestamp: now,
        },
    )
}

/// Cleaning up twice at the same instant changes nothing the second time:
/// the state stays as the first call left it and no token is dropped.
pub proof fn lemma_cleanup_idempotent(s: BufferState, now: u64)
    requires
        well_formed(s),
    ensures
        after_cleanup(after_cleanup(s, now), now) == after_cleanup(s, now),
        after_cleanup(after_cleanup(s, now), now).tokens.len() == after_cleanup(s, now).tokens.len(),
{
    lemma_live(s.tokens, now, s.timeout_ms);
    let s1 = after_cleanup(s, now);
    if s1.tokens.len() == 0 {
        assert(live(s1.tokens, now, s1.timeout_ms) =~= Seq::<TokenView>::empty());
    }
}

/// After a cleanup at `now`, every remaining token was created less than the
/// timeout before `now`: a token created at `t0` is gone after any cleanup at
/// a time at or past `t0 + timeout`.
pub proof fn lemma_cleanup_expires(s: BufferState, now: u64)
    ensures
        forall|i: int|
            0 <= i < after_cleanup(s, now).tokens.len() ==> now < #[trigger] after_cleanup(
                s,
                now,
            ).tokens[i].created_at + s.timeout_ms,
{
    lemma_live(s.tokens, now, s.timeout_ms);
}

/// After any key press the token widths sum to at most the width budget.
pub proof fn lemma_add_within_budget(s: BufferState, key: u16, name: Seq<char>, shown: Seq<char>, at: u64)
    requires
        well_formed(s),
    ensures
        total_width(after_add(s, key, name, shown, at).tokens) <= s.length_limit,
        well_formed(after_add(s, key, name, shown, at)),
{
    reveal(after_add);
    lemma_add_well_formed(s, key, name, shown, at);
}

proof fn lemma_add_cancel(h: Seq<char>, x: Seq<char>, y: Seq<char>)
    requires
        h + x == h + y,
    ensures
        x == y,
{
    assert(x =~= (h + x).subrange(h.len() as int, (h + x).len() as int));
    assert(y =~= (h + y).subrange(h.len() as int, (h + y).len() as int));
}

/// Repeat detection looks only at the immediately preceding combination:
/// after A, then a different B, pressing A again starts a new run (count 1).
pub proof fn lemma_combination_reset(
    s: BufferState,
    a_key: u16,
    a_name: Seq<char>,
    a_shown: Seq<char>,
    a_at: u64,
    b_key: u16,
    b_name: Seq<char>,
    b_shown: Seq<char>,
    b_at: u64,
    a2_at: u64,
)
    requires
        well_formed(s),
        !is_modifier_code(a_key),
        !is_modifier_code(b_key),
        a_name != b_name,
    ensures
        !is_repeat(
            after_add(after_add(s, a_key, a_name, a_shown, a_at), b_key, b_name, b_shown, b_at),
            a_key,
            a_name,
        ),
        after_add(
            after_add(after_add(s, a_key, a_name, a_shown, a_at), b_key, b_name, b_shown, b_at),
            a_key,
            a_name,
            a_shown,
            a2_at,
        ).repeat_count == 1,
{
    reveal(after_add);
    let s1 = after_add(s, a_key, a_name, a_shown, a_at);
    let s2 = after_add(s1, b_key, b_name, b_shown, b_at);
    if s1.tokens.len() > 0 {
        assert(s1.modifiers == s.modifiers);
        assert(s1.last_combination == combination(s1.modifiers, a_name));
        if combination(s1.modifiers, b_name) == s1.last_combination {
            lemma_add_cancel(held_names(s1.modifiers), b_name, a_name);
        }
        assert(!is_repeat(s1, b_key, b_name));
    }
    if s2.tokens.len() > 0 {
        assert(s2.last_combination == combination(s2.modifiers, b_name));
        if combination(s2.modifiers, a_name) == s2.last_combination {
            lemma_add_cancel(held_names(s2.modifiers), a_name, b_name);
        }
    }
}

proof fn lemma_total_concat(a: Seq<TokenView>, b: Seq<TokenView>)
    ensures
        total_width(a + b) == total_width(a) + total_width(b),
    decreases a.len(),
{
    if a.len() > 0 {
        assert((a + b).drop_first() =~= a.drop_first() + b);
        assert((a + b)[0] == a[0]);
        lemma_total_concat(a.drop_first(), b);
    } else {
        assert(a + b =~= b);
    }
}

/// A one-character text that is in neither glyph list costs one column.
proof fn lemma_single_char_width(c: char)
    requires
        !"⏎␣⇦⇧⇨"@.contains(c),
        !"⌫F12F10F11Esc"@.contains(c),
    ensures
        char_width(seq![c]) == 1,
{
    let p = seq![c];
    let g1 = "⏎␣⇦⇧⇨"@;
    let g2 = "⌫F12F10F11Esc"@;
    assert forall|i: int| !occurs_at(g1, p, i) by {
        if occurs_at(g1, p, i) {
            assert(g1.subrange(i, i + 1)[0] == g1[i]);
        }
    }
    assert forall|i: int| !occurs_at(g2, p, i) by {
        if occurs_at(g2, p, i) {
            assert(g2.subrange(i, i + 1)[0] == g2[i]);
        }
    }
    reveal_strlit("Ctrl+");
    reveal_strlit("Alt+");
    reveal_strlit("Shift+");
    reveal_strlit("Super+");
    reveal_strlit("Tab");
    reveal_strlit("Caps");
}

/// The repeat indicator of a one-digit count is two one-column tokens.
proof fn lemma_small_repeat_tokens(n: nat, at: u64)
    requires
        n < 10,
    ensures
        repeat_tokens(n, at).len() == 2,
        total_width(repeat_tokens(n, at)) == 2,
        forall|i: int| 0 <= i < 2 ==> is_repeat_kind(#[trigger] repeat_tokens(n, at)[i].kind),
{
    reveal_strlit("ₓ");
    reveal_strlit("⏎␣⇦⇧⇨");
    reveal_strlit("⌫F12F10F11Esc");
    let r = repeat_tokens(n, at);
    let d = digit_char(n);
    assert(decimal(n) == seq![d]);
    assert(r[0].text == seq!['ₓ']);
    assert(r[1].text == seq![subscript_char(d)]);
    lemma_single_char_width('ₓ');
    lemma_single_char_width(subscript_char(d));
    assert(r.drop_first().drop_first() =~= Seq::<TokenView>::empty());
    assert(total_width(r.drop_first()) == r[1].width + total_width(r.drop_first().drop_first()));
}

proof fn lemma_strip_after_key(a: Seq<TokenView>, r: Seq<TokenView>)
    requires
        a.len() > 0,
        a.last().kind == TokenKind::Key,
        r.len() == 2,
        is_repeat_kind(r[0].kind),
        is_repeat_kind(r[1].kind),
    ensures
        strip_repeat(a + r) == a,
        strip_repeat(a) == a,
{
    assert((a + r).drop_last() =~= a + seq![r[0]]);
    assert((a + r).last() == r[1]);
    assert((a + seq![r[0]]).drop_last() =~= a);
    assert((a + seq![r[0]]).last() == r[0]);
    assert(strip_repeat(a) == a);
    assert(strip_repeat(a + seq![r[0]]) == strip_repeat(a));
    assert(strip_repeat(a + r) == strip_repeat(a + seq![r[0]]));
}

/// One more press of the combination that the buffer just repeated, with a
/// one-digit count above two and room for the indicator.
proof fn lemma_repeat_step(p: BufferState, key: u16, name: Seq<char>, shown: Seq<char>, at: u64, g: Seq<TokenView>)
    requires
        is_repeat(p, key, name),
        press_modifier(p.modifiers, key) == p.modifiers,
        strip_repeat(p.tokens) == g,
        g.len() > 0,
        g.last().kind == TokenKind::Key,
        2 <= p.repeat_count < 9,
        total_width(g) + 2 <= p.length_limit,
    ensures
        after_add(p, key, name, shown, at).tokens == g + repeat_tokens((p.repeat_count + 1) as nat, at),
        after_add(p, key, name, shown, at).repeat_count == p.repeat_count + 1,
        after_add(p, key, name, shown, at).modifiers == p.modifiers,
        after_add(p, key, name, shown, at).last_combination == p.last_combination,
        after_add(p, key, name, shown, at).length_limit == p.length_limit,
        strip_repeat(after_add(p, key, name, shown, at).tokens) == g,
        is_repeat(after_add(p, key, name, shown, at), key, name),
{
    reveal(after_add);
    let n = (p.repeat_count + 1) as nat;
    lemma_small_repeat_tokens(n, at);
    lemma_total_concat(g, repeat_tokens(n, at));
    lemma_strip_after_key(g, repeat_tokens(n, at));
}

/// The first press of a combination that differs from the last one, with room
/// for its tokens.
proof fn lemma_first_press(s: BufferState, key: u16, name: Seq<char>, shown: Seq<char>, t1: u64)
    requires
        !is_repeat(s, key, name),
        total_width(s.tokens) + total_width(prefix_tokens(press_modifier(s.modifiers, key), t1))
            + char_width(shown) + 2 <= s.length_limit,
    ensures
        ({
            let g = s.tokens + prefix_tokens(press_modifier(s.modifiers, key), t1) + seq![
                token(shown, TokenKind::Key, t1),
            ];
            let s1 = after_add(s, key, name, shown, t1);
            &&& s1.tokens == g
            &&& s1.modifiers == press_modifier(s.modifiers, key)
            &&& s1.last_combination == combination(s1.modifiers, name)
            &&& s1.repeat_count == 1
            &&& total_width(g) + 2 <= s1.length_limit
            &&& g.len() > 0
            &&& g.last().kind == TokenKind::Key
        }),
{
    reveal(after_add);
    let m = press_modifier(s.modifiers, key);
    let k = seq![token(shown, TokenKind::Key, t1)];
    let g1 = s.tokens + prefix_tokens(m, t1) + k;
    lemma_total_concat(s.tokens, prefix_tokens(m, t1));
    lemma_total_concat(s.tokens + prefix_tokens(m, t1), k);
    assert(k.drop_first() =~= Seq::<TokenView>::empty());
    assert(total_width(k.drop_first()) == 0);
    assert(total_width(k) == char_width(shown));
}

/// The first repeat of a combination: the count becomes two and no token is added.
proof fn lemma_second_press(p: BufferState, key: u16, name: Seq<char>, shown: Seq<char>, t2: u64, g: Seq<TokenView>)
    requires
        p.tokens == g,
        g.len() > 0,
        g.last().kind == TokenKind::Key,
        p.last_combination == combination(p.modifiers, name),
        p.repeat_count == 1,
        press_modifier(p.modifiers, key) == p.modifiers,
        total_width(g) + 2 <= p.length_limit,
    ensures
        ({
            let s2 = after_add(p, key, name, shown, t2);
            &&& s2.tokens == g
            &&& s2.repeat_count == 2
            &&& s2.modifiers == press_modifier(p.modifiers, key)
            &&& s2.last_combination == p.last_combination
            &&& s2.length_limit == p.length_limit
        }),
        is_repeat(p, key, name),
{
    reveal(after_add);
    lemma_small_repeat_tokens(3, t2);
    lemma_strip_after_key(g, repeat_tokens(3, t2));
    assert(g + Seq::<TokenView>::empty() =~= g);
}

proof fn lemma_joined_indicator(g: Seq<TokenView>, at: u64)
    ensures
        joined(g + repeat_tokens(5, at)) == joined(g) + seq!['ₓ', '₅'],
{
    let r = repeat_tokens(5, at);
    reveal_strlit("ₓ");
    assert(decimal(5) == seq!['5']);
    assert(r[0].text == seq!['ₓ']);
    assert(r[1].text == seq!['₅']);
    assert((g + r).drop_last() =~= g + seq![r[0]]);
    assert((g + r).last() == r[1]);
    assert((g + seq![r[0]]).drop_last() =~= g);
    assert((g + seq![r[0]]).last() == r[0]);
    assert(joined(g + seq![r[0]]) == joined(g) + seq!['ₓ']);
    assert(joined(g + r) == joined(g) + seq!['ₓ'] + seq!['₅']);
    assert(joined(g + r) =~= joined(g) + seq!['ₓ', '₅']);
}

proof fn lemma_press_idempotent(m: HeldModifiers, key: u16)
    ensures
        press_modifier(press_modifier(m, key), key) == press_modifier(m, key),
{
}

/// Three more presses after the first repeat: the indicator for three, four
/// and then five replaces the previous one.
proof fn lemma_three_repeats(
    s2: BufferState,
    key: u16,
    name: Seq<char>,
    shown: Seq<char>,
    t3: u64,
    t4: u64,
    t5: u64,
    g: Seq<TokenView>,
)
    requires
        s2.tokens == g,
        s2.repeat_count == 2,
        press_modifier(s2.modifiers, key) == s2.modifiers,
        s2.last_combination == combination(s2.modifiers, name),
        g.len() > 0,
        g.last().kind == TokenKind::Key,
        total_width(g) + 2 <= s2.length_limit,
    ensures
        ({
            let s5 = after_add(
                after_add(after_add(s2, key, name, shown, t3), key, name, shown, t4),
                key,
                name,
                shown,
                t5,
            );
            &&& s5.tokens == g + repeat_tokens(5, t5)
            &&& s5.repeat_count == 5
        }),
{
    lemma_small_repeat_tokens(3, t3);
    lemma_strip_after_key(g, repeat_tokens(3, t3));
    lemma_repeat_step(s2, key, name, shown, t3, g);
    let s3 = after_add(s2, key, name, shown, t3);
    lemma_repeat_step(s3, key, name, shown, t4, g);
    let s4 = after_add(s3, key, name, shown, t4);
    lemma_repeat_step(s4, key, name, shown, t5, g);
}

/// Pressing one combination five times in a row, when the press before was a
/// different combination and the run fits the width budget, leaves the key's
/// own token followed by the `ₓ` mark and the digit `₅`; after the second
/// press there is no repeat indicator at all.
pub proof fn lemma_repeat_compression(
    s: BufferState,
    key: u16,
    name: Seq<char>,
    shown: Seq<char>,
    t1: u64,
    t2: u64,
    t3: u64,
    t4: u64,
    t5: u64,
)
    requires
        !is_repeat(s, key, name),
        total_width(s.tokens) + total_width(prefix_tokens(press_modifier(s.modifiers, key), t1))
            + char_width(shown) + 2 <= s.length_limit,
    ensures
        ({
            let s1 = after_add(s, key, name, shown, t1);
            let s2 = after_add(s1, key, name, shown, t2);
            let s5 = after_add(
                after_add(after_add(s2, key, name, shown, t3), key, name, shown, t4),
                key,
                name,
                shown,
                t5,
            );
            &&& s1.tokens == s.tokens + prefix_tokens(press_modifier(s.modifiers, key), t1) + seq![
                token(shown, TokenKind::Key, t1),
            ]
            &&& s2.tokens == s1.tokens
            &&& s5.tokens == s1.tokens + repeat_tokens(5, t5)
            &&& s5.repeat_count == 5
            &&& joined(s5.tokens) == joined(s1.tokens) + seq!['ₓ', '₅']
        }),
{
    let m = press_modifier(s.modifiers, key);
    let g = s.tokens + prefix_tokens(m, t1) + seq![token(shown, TokenKind::Key, t1)];
    lemma_first_press(s, key, name, shown, t1);
    let s1 = after_add(s, key, name, shown, t1);
    lemma_press_idempotent(s.modifiers, key);
    lemma_second_press(s1, key, name, shown, t2, g);
    let s2 = after_add(s1, key, name, shown, t2);
    lemma_three_repeats(s2, key, name, shown, t3, t4, t5, g);
    lemma_joined_indicator(g, t5);
}

} // verus!
