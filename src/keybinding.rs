//! Key bindings, hotkeys, and the `modifier+modifier+key` grammar.
use vstd::prelude::*;
use crate::error::{Error, ErrorView, ParseError};
use crate::symbols::{Modifier, modifier_of, keysym_of, match_modifier, match_keysym};
use crate::text::{lower_of, trimmed, split_on, split_text, trim_text, starts_with_char,
    drop_first_char, joined_with, lemma_split_joined};

verus! {

/// A key together with the modifiers held with it.
#[derive(Debug, Clone)]
pub struct KeyBinding {
    /// Code of the key, as the Linux input subsystem numbers it.
    pub keysym: u16,
    pub modifiers: Vec<Modifier>,
    /// The key event is sent on to other programs.
    pub send: bool,
    /// The binding fires when the key is released.
    pub on_release: bool,
}

/// What a `KeyBinding` holds.
pub struct KeyBindingView {
    pub keysym: u16,
    pub modifiers: Seq<Modifier>,
    pub send: bool,
    pub on_release: bool,
}

impl View for KeyBinding {
    type V = KeyBindingView;

    open spec fn view(&self) -> KeyBindingView {
        KeyBindingView {
            keysym: self.keysym,
            modifiers: self.modifiers@,
            send: self.send,
            on_release: self.on_release,
        }
    }
}

/// Two bindings are the same when their keys, flags and sets of modifiers are.
pub open spec fn same_binding(a: KeyBindingView, b: KeyBindingView) -> bool {
    &&& a.keysym == b.keysym
    &&& a.modifiers.to_set() == b.modifiers.to_set()
    &&& a.send == b.send
    &&& a.on_release == b.on_release
}

/// Whether every modifier of `a` occurs in `b`.
fn modifiers_within(a: &Vec<Modifier>, b: &Vec<Modifier>) -> (r: bool)
    ensures
        r == a@.to_set().subset_of(b@.to_set()),
{
    let mut i: usize = 0;
    while i < a.len()
        invariant
            i <= a@.len(),
            forall|j: int| 0 <= j < i ==> b@.contains(#[trigger] a@[j]),
        decreases a.len() - i,
    {
        let mut found = false;
        let mut k: usize = 0;
        while k < b.len()
            invariant
                i < a@.len(),
                k <= b@.len(),
                found == (exists|l: int| 0 <= l < k && b@[l] == a@[i as int]),
            decreases b.len() - k,
        {
            if b[k] == a[i] {
                found = true;
            }
            k = k + 1;
        }
        if !found {
            assert(a@.to_set().contains(a@[i as int]));
            return false;
        }
        i = i + 1;
    }
    assert forall|m: Modifier| a@.to_set().contains(m) implies b@.to_set().contains(m) by {
        let j = choose|j: int| 0 <= j < a@.len() && a@[j] == m;
        assert(b@.contains(a@[j]));
    }
    true
}

impl PartialEq for KeyBinding {
    fn eq(&self, other: &KeyBinding) -> (r: bool) {
        let r = self.keysym == other.keysym && self.send == other.send && self.on_release
            == other.on_release && modifiers_within(&self.modifiers, &other.modifiers)
            && modifiers_within(&other.modifiers, &self.modifiers);
        proof {
            if self.keysym == other.keysym && self.send == other.send && self.on_release
                == other.on_release && self.modifiers@.to_set().subset_of(
                other.modifiers@.to_set(),
            ) && other.modifiers@.to_set().subset_of(self.modifiers@.to_set()) {
                assert(self.modifiers@.to_set() =~= other.modifiers@.to_set());
            }
        }
        r
    }
}

impl vstd::std_specs::cmp::PartialEqSpecImpl for KeyBinding {
    open spec fn obeys_eq_spec() -> bool {
        true
    }

    open spec fn eq_spec(&self, other: &KeyBinding) -> bool {
        same_binding(self@, other@)
    }
}

/// A binding and the command it runs.
#[derive(Debug, Clone)]
pub struct Hotkey {
    pub keybinding: KeyBinding,
    pub command: String,
}

/// What a `Hotkey` holds.
pub struct HotkeyView {
    pub keybinding: KeyBindingView,
    pub command: Seq<char>,
}

impl View for Hotkey {
    type V = HotkeyView;

    open spec fn view(&self) -> HotkeyView {
        HotkeyView { keybinding: self.keybinding@, command: self.command@ }
    }
}

/// Two hotkeys are the same when their bindings and commands are.
pub open spec fn same_hotkey(a: HotkeyView, b: HotkeyView) -> bool {
    same_binding(a.keybinding, b.keybinding) && a.command == b.command
}

impl PartialEq for Hotkey {
    fn eq(&self, other: &Hotkey) -> (r: bool) {
        self.keybinding == other.keybinding && self.command == other.command
    }
}

impl vstd::std_specs::cmp::PartialEqSpecImpl for Hotkey {
    open spec fn obeys_eq_spec() -> bool {
        true
    }

    open spec fn eq_spec(&self, other: &Hotkey) -> bool {
        same_hotkey(self@, other@)
    }
}

impl KeyBinding {
    /// A binding of `keysym` with `modifiers`, neither sent on nor fired on release.
    pub fn new(keysym: u16, modifiers: Vec<Modifier>) -> (r: Self)
        ensures
            r@ == (KeyBindingView { keysym, modifiers: modifiers@, send: false, on_release: false }),
    {
        KeyBinding { keysym, modifiers, send: false, on_release: false }
    }
}

impl Hotkey {
    /// The hotkey that runs `command` on `keybinding`.
    pub fn from_keybinding(keybinding: KeyBinding, command: String) -> (r: Self)
        ensures
            r@ == (HotkeyView { keybinding: keybinding@, command: command@ }),
    {
        Hotkey { keybinding, command }
    }

    /// The hotkey that runs `command` on `keysym` with `modifiers`.
    pub fn new(keysym: u16, modifiers: Vec<Modifier>, command: String) -> (r: Self)
        ensures
            r@ == (HotkeyView {
                keybinding: KeyBindingView {
                    keysym,
                    modifiers: modifiers@,
                    send: false,
                    on_release: false,
                },
                command: command@,
            }),
    {
        Hotkey { keybinding: KeyBinding::new(keysym, modifiers), command }
    }
}

/// Marks a binding as sent on, or as fired on release.
pub trait Prefix: Sized + View {
    /// The value with the binding marked as sent on.
    spec fn with_send(v: Self::V) -> Self::V;

    /// The value with the binding marked as fired on release.
    spec fn with_on_release(v: Self::V) -> Self::V;

    fn send(self) -> (r: Self)
        ensures
            r@ == Self::with_send(self@),
    ;

    fn on_release(self) -> (r: Self)
        ensures
            r@ == Self::with_on_release(self@),
    ;
}

/// Reads the parts of a binding.
pub trait Value: View {
    /// The binding that a value holds.
    spec fn binding_view(v: Self::V) -> KeyBindingView;

    fn keysym(&self) -> (r: u16)
        ensures
            r == Self::binding_view(self@).keysym,
    ;

    fn modifiers(&self) -> (r: Vec<Modifier>)
        ensures
            r@ == Self::binding_view(self@).modifiers,
    ;

    fn is_send(&self) -> (r: bool)
        ensures
            r == Self::binding_view(self@).send,
    ;

    fn is_on_release(&self) -> (r: bool)
        ensures
            r == Self::binding_view(self@).on_release,
    ;
}

/// The modifiers of `kb`, copied.
fn copy_modifiers(kb: &KeyBinding) -> (r: Vec<Modifier>)
    ensures
        r@ == kb.modifiers@,
{
    let mut modifiers: Vec<Modifier> = Vec::new();
    let mut i: usize = 0;
    while i < kb.modifiers.len()
        invariant
            i <= kb.modifiers@.len(),
            modifiers@ == kb.modifiers@.take(i as int),
        decreases kb.modifiers.len() - i,
    {
        modifiers.push(kb.modifiers[i]);
        i = i + 1;
        assert(modifiers@ =~= kb.modifiers@.take(i as int));
    }
    assert(kb.modifiers@.take(i as int) =~= kb.modifiers@);
    modifiers
}

/// A binding with the same key, modifiers and flags.
pub(crate) fn copy_binding(kb: &KeyBinding) -> (r: KeyBinding)
    ensures
        r@ == kb@,
{
    KeyBinding {
        keysym: kb.keysym,
        modifiers: copy_modifiers(kb),
        send: kb.send,
        on_release: kb.on_release,
    }
}

impl Prefix for KeyBinding {
    open spec fn with_send(v: KeyBindingView) -> KeyBindingView {
        KeyBindingView { keysym: v.keysym, modifiers: v.modifiers, send: true, on_release: v.on_release }
    }

    open spec fn with_on_release(v: KeyBindingView) -> KeyBindingView {
        KeyBindingView { keysym: v.keysym, modifiers: v.modifiers, send: v.send, on_release: true }
    }

    fn send(self) -> (r: Self) {
        let mut kb = self;
        kb.send = true;
        kb
    }

    fn on_release(self) -> (r: Self) {
        let mut kb = self;
        kb.on_release = true;
        kb
    }
}

impl Value for KeyBinding {
    open spec fn binding_view(v: KeyBindingView) -> KeyBindingView {
        v
    }

    fn keysym(&self) -> (r: u16) {
        self.keysym
    }

    fn modifiers(&self) -> (r: Vec<Modifier>) {
        copy_modifiers(self)
    }

    fn is_send(&self) -> (r: bool) {
        self.send
    }

    fn is_on_release(&self) -> (r: bool) {
        self.on_release
    }
}

impl Prefix for Hotkey {
    open spec fn with_send(v: HotkeyView) -> HotkeyView {
        HotkeyView { keybinding: KeyBinding::with_send(v.keybinding), command: v.command }
    }

    open spec fn with_on_release(v: HotkeyView) -> HotkeyView {
        HotkeyView { keybinding: KeyBinding::with_on_release(v.keybinding), command: v.command }
    }

    fn send(self) -> (r: Self) {
        let mut hk = self;
        hk.keybinding.send = true;
        hk
    }

    fn on_release(self) -> (r: Self) {
        let mut hk = self;
        hk.keybinding.on_release = true;
        hk
    }
}

impl Value for &Hotkey {
    open spec fn binding_view(v: HotkeyView) -> KeyBindingView {
        v.keybinding
    }

    fn keysym(&self) -> (r: u16) {
        self.keybinding.keysym
    }

    fn modifiers(&self) -> (r: Vec<Modifier>) {
        copy_modifiers(&self.keybinding)
    }

    fn is_send(&self) -> (r: bool) {
        self.keybinding.send
    }

    fn is_on_release(&self) -> (r: bool) {
        self.keybinding.on_release
    }
}

/// The tokens of a binding: the text between `+` signs, trimmed.
pub open spec fn binding_tokens(key: Seq<char>) -> Seq<Seq<char>> {
    split_on(key, '+').map_values(|t: Seq<char>| trimmed(t))
}

/// A token without its leading `@` and `~` signs.
pub open spec fn strip_sigils(t: Seq<char>) -> Seq<char>
    decreases t.len(),
{
    if t.len() > 0 && (t[0] == '@' || t[0] == '~') {
        strip_sigils(t.drop_first())
    } else {
        t
    }
}

/// Whether a key token asks to fire on release: it starts with `@` or `~@`.
pub open spec fn marks_on_release(t: Seq<char>) -> bool {
    (t.len() > 0 && t[0] == '@') || (t.len() > 1 && t[0] == '~' && t[1] == '@')
}

/// Whether a key token asks to send the key on: it starts with `~` or `@~`.
pub open spec fn marks_send(t: Seq<char>) -> bool {
    (t.len() > 0 && t[0] == '~') || (t.len() > 1 && t[0] == '@' && t[1] == '~')
}

/// Whether every token before the last one names a modifier.
pub open spec fn modifiers_valid(toks: Seq<Seq<char>>) -> bool {
    forall|i: int| 0 <= i < toks.len() - 1 ==> (#[trigger] modifier_of(lower_of(toks[i]))) is Some
}

/// The modifiers named by all tokens but the last one.
pub open spec fn modifiers_named(toks: Seq<Seq<char>>) -> Seq<Modifier> {
    toks.take(toks.len() - 1).map_values(|t: Seq<char>| modifier_of(lower_of(t))->0)
}

/// The binding that a key line describes, or the error it gives, with `path`
/// and `line_nr` naming the line in errors.
pub open spec fn binding_of(key: Seq<char>, line_nr: u32, path: Seq<char>) -> Result<
    KeyBindingView,
    ErrorView,
> {
    let toks = binding_tokens(key);
    if toks.len() == 0 {
        Err(ErrorView::UnknownSymbol(path, line_nr))
    } else {
        let last = toks.last();
        match keysym_of(lower_of(strip_sigils(last))) {
            None => Err(ErrorView::UnknownSymbol(path, line_nr)),
            Some(k) => if !modifiers_valid(toks) {
                Err(ErrorView::InvalidModifier(path, line_nr))
            } else {
                Ok(
                    KeyBindingView {
                        keysym: k,
                        modifiers: modifiers_named(toks),
                        send: marks_send(last),
                        on_release: marks_on_release(last),
                    },
                )
            },
        }
    }
}

/// The view of a parsed binding.
pub open spec fn binding_result_view(r: Result<KeyBinding, Error>) -> Result<
    KeyBindingView,
    ErrorView,
> {
    match r {
        Ok(kb) => Ok(kb@),
        Err(e) => Err(e@),
    }
}

/// The signs that may stand before a key: none, `@`, `~`, `@~` or `~@`.
pub open spec fn valid_sigils(s: Seq<char>) -> bool {
    s == Seq::<char>::empty() || s == seq!['@'] || s == seq!['~'] || s == seq!['@', '~'] || s
        == seq!['~', '@']
}

/// Stripping signs from signs followed by a key name gives the key name.
proof fn lemma_strip_sigils(sigils: Seq<char>, key: Seq<char>)
    requires
        forall|i: int| 0 <= i < sigils.len() ==> #[trigger] sigils[i] == '@' || sigils[i] == '~',
        key.len() > 0,
        key[0] != '@' && key[0] != '~',
    ensures
        strip_sigils(sigils + key) == key,
    decreases sigils.len(),
{
    let t = sigils + key;
    if sigils.len() == 0 {
        assert(t =~= key);
    } else {
        assert(t[0] == sigils[0]);
        assert(t.drop_first() =~= sigils.drop_first() + key);
        assert forall|i: int| 0 <= i < sigils.drop_first().len() implies #[trigger] sigils.drop_first()[i]
            == '@' || sigils.drop_first()[i] == '~' by {
            assert(sigils.drop_first()[i] == sigils[i + 1]);
        }
        lemma_strip_sigils(sigils.drop_first(), key);
    }
}

/// The modifier that a token names, once trimmed.
pub open spec fn modifier_of_token(t: Seq<char>) -> Modifier {
    modifier_of(lower_of(trimmed(t)))->0
}

/// Parsing `m1+m2+...+t`, where the tokens may have white space around them,
/// each `mi` names a modifier, and `t` trimmed is signs followed by a key name
/// `k`, gives exactly the modifiers named, the key named, and the flags that
/// the signs ask for.
pub proof fn lemma_parse_recovers_parts(
    mods: Seq<Seq<char>>,
    key_token: Seq<char>,
    sigils: Seq<char>,
    key: Seq<char>,
    line_nr: u32,
    path: Seq<char>,
)
    requires
        forall|i: int|
            0 <= i < mods.len() ==> !(#[trigger] mods[i]).contains('+') && modifier_of(
                lower_of(trimmed(mods[i])),
            ) is Some,
        !key_token.contains('+'),
        trimmed(key_token) == sigils + key,
        valid_sigils(sigils),
        key.len() > 0,
        key[0] != '@' && key[0] != '~',
        keysym_of(lower_of(key)) is Some,
    ensures
        binding_of(joined_with(mods.push(key_token), '+'), line_nr, path) == Ok::<
            KeyBindingView,
            ErrorView,
        >(
            KeyBindingView {
                keysym: keysym_of(lower_of(key))->0,
                modifiers: mods.map_values(|m: Seq<char>| modifier_of_token(m)),
                send: sigils.contains('~'),
                on_release: sigils.contains('@'),
            },
        ),
{
    let last = sigils + key;
    let parts = mods.push(key_token);
    assert forall|i: int| 0 <= i < parts.len() implies !(#[trigger] parts[i]).contains('+') by {
        if i < mods.len() {
            assert(parts[i] == mods[i]);
        }
    }
    lemma_split_joined(parts, '+');
    let toks = binding_tokens(joined_with(parts, '+'));
    assert(toks.last() == last);
    assert(modifiers_valid(toks)) by {
        assert forall|i: int| 0 <= i < toks.len() - 1 implies (#[trigger] modifier_of(
            lower_of(toks[i]),
        )) is Some by {
            assert(toks[i] == trimmed(mods[i]));
        }
    }
    assert(modifiers_named(toks) =~= mods.map_values(|m: Seq<char>| modifier_of_token(m))) by {
        assert forall|i: int| 0 <= i < mods.len() implies #[trigger] modifiers_named(toks)[i]
            == modifier_of_token(mods[i]) by {
            assert(toks[i] == trimmed(mods[i]));
        }
    }
    assert forall|i: int| 0 <= i < sigils.len() implies #[trigger] sigils[i] == '@' || sigils[i]
        == '~' by {}
    lemma_strip_sigils(sigils, key);
    if sigils.len() == 0 {
        assert(last =~= key);
    } else if sigils.len() == 1 {
        assert(last[0] == sigils[0] && last[1] == key[0]);
        assert(sigils[0] == '@' ==> sigils.contains('@'));
        assert(sigils[0] == '~' ==> sigils.contains('~'));
    } else {
        assert(last[0] == sigils[0] && last[1] == sigils[1]);
        assert(sigils.contains(sigils[0]) && sigils.contains(sigils[1]));
    }
}

/// The order in which modifiers are written does not matter: two such key
/// lines with the same modifier tokens and the same key token give the same
/// binding.
pub proof fn lemma_modifier_order_irrelevant(
    mods1: Seq<Seq<char>>,
    mods2: Seq<Seq<char>>,
    key_token: Seq<char>,
    sigils: Seq<char>,
    key: Seq<char>,
    line_nr: u32,
    path: Seq<char>,
)
    requires
        forall|i: int|
            0 <= i < mods1.len() ==> !(#[trigger] mods1[i]).contains('+') && modifier_of(
                lower_of(trimmed(mods1[i])),
            ) is Some,
        forall|i: int|
            0 <= i < mods2.len() ==> !(#[trigger] mods2[i]).contains('+') && modifier_of(
                lower_of(trimmed(mods2[i])),
            ) is Some,
        mods1.to_set() == mods2.to_set(),
        !key_token.contains('+'),
        trimmed(key_token) == sigils + key,
        valid_sigils(sigils),
        key.len() > 0,
        key[0] != '@' && key[0] != '~',
        keysym_of(lower_of(key)) is Some,
    ensures
        same_binding(
            binding_of(joined_with(mods1.push(key_token), '+'), line_nr, path)->Ok_0,
            binding_of(joined_with(mods2.push(key_token), '+'), line_nr, path)->Ok_0,
        ),
{
    lemma_parse_recovers_parts(mods1, key_token, sigils, key, line_nr, path);
    lemma_parse_recovers_parts(mods2, key_token, sigils, key, line_nr, path);
    let a = mods1.map_values(|m: Seq<char>| modifier_of_token(m));
    let b = mods2.map_values(|m: Seq<char>| modifier_of_token(m));
    assert forall|m: Modifier| a.to_set().contains(m) implies b.to_set().contains(m) by {
        let i = choose|i: int| 0 <= i < a.len() && a[i] == m;
        assert(mods1.to_set().contains(mods1[i]));
        let j = choose|j: int| 0 <= j < mods2.len() && mods2[j] == mods1[i];
        assert(b[j] == m);
    }
    assert forall|m: Modifier| b.to_set().contains(m) implies a.to_set().contains(m) by {
        let j = choose|j: int| 0 <= j < b.len() && b[j] == m;
        assert(mods2.to_set().contains(mods2[j]));
        let i = choose|i: int| 0 <= i < mods1.len() && mods1[i] == mods2[j];
        assert(a[i] == m);
    }
    assert(a.to_set() =~= b.to_set());
}

/// `t` without its leading `@` and `~` signs.
fn strip_prefix(t: &str) -> (r: String)
    ensures
        r@ == strip_sigils(t@),
{
    let mut s = String::from_str(t);
    while starts_with_char(s.as_str(), '@') || starts_with_char(s.as_str(), '~')
        invariant
            strip_sigils(s@) == strip_sigils(t@),
        decreases s@.len(),
    {
        s = drop_first_char(s.as_str());
    }
    s
}

/// Parses a key line such as `super + shift + ~@b`: an unknown key is reported
/// before an unknown modifier, and errors name `path` and `line_nr`.
pub fn parse_keybinding(key: &str, line_nr: u32, path: String) -> (r: Result<KeyBinding, Error>)
    ensures
        binding_result_view(r) == binding_of(key@, line_nr, path@),
{
    let pieces = split_text(key, '+');
    let ghost toks = binding_tokens(key@);
    let mut tokens: Vec<String> = Vec::new();
    let mut i: usize = 0;
    while i < pieces.len()
        invariant
            pieces@.len() == split_on(key@, '+').len(),
            forall|j: int| 0 <= j < pieces@.len() ==> #[trigger] pieces@[j]@ == split_on(key@, '+')[j],
            toks == binding_tokens(key@),
            i <= pieces@.len(),
            tokens@.len() == i,
            forall|j: int| 0 <= j < i ==> #[trigger] tokens@[j]@ == toks[j],
        decreases pieces.len() - i,
    {
        tokens.push(trim_text(pieces[i].as_str()));
        i = i + 1;
    }
    let n = tokens.len();
    if n == 0 {
        return Err(Error::InvalidConfig(ParseError::UnknownSymbol(path, line_nr)));
    }
    let last = tokens[n - 1].as_str();
    let on_release = starts_with_char(last, '@') || (last.unicode_len() > 1 && last.get_char(0)
        == '~' && last.get_char(1) == '@');
    let send = starts_with_char(last, '~') || (last.unicode_len() > 1 && last.get_char(0) == '@'
        && last.get_char(1) == '~');
    let stripped = strip_prefix(last);
    let keysym = match match_keysym(stripped.as_str()) {
        Some(k) => k,
        None => {
            return Err(Error::InvalidConfig(ParseError::UnknownSymbol(path, line_nr)));
        },
    };
    let mut modifiers: Vec<Modifier> = Vec::new();
    let mut i: usize = 0;
    while i < n - 1
        invariant
            toks == binding_tokens(key@),
            n == toks.len(),
            n >= 1,
            keysym_of(lower_of(strip_sigils(toks.last()))) == Some(keysym),
            tokens@.len() == n,
            forall|j: int| 0 <= j < n ==> #[trigger] tokens@[j]@ == toks[j],
            i <= n - 1,
            modifiers@ == toks.take(i as int).map_values(
                |t: Seq<char>| modifier_of(lower_of(t))->0,
            ),
            forall|j: int| 0 <= j < i ==> (#[trigger] modifier_of(lower_of(toks[j]))) is Some,
        decreases n - 1 - i,
    {
        match match_modifier(tokens[i].as_str()) {
            Some(modifier) => {
                modifiers.push(modifier);
            },
            None => {
                assert(modifier_of(lower_of(toks[i as int])) is None);
                return Err(Error::InvalidConfig(ParseError::InvalidModifier(path, line_nr)));
            },
        }
        assert(toks.take(i + 1) == toks.take(i as int).push(toks[i as int]));
        i = i + 1;
        assert(modifiers@ =~= toks.take(i as int).map_values(
            |t: Seq<char>| modifier_of(lower_of(t))->0,
        ));
    }
    Ok(KeyBinding { keysym, modifiers, send, on_release })
}

} // verus!
