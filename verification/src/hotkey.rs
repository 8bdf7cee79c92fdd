//! Key combinations: from the configured text to the modifier mask and key
//! code that the system registers, and the decisions of a hotkey listener.

use crate::common::Failure;
use crate::message::Message;
use crate::text::same_text;
use crate::text::split_trimmed;
use crate::text::tokens_of;
use crate::text::views;
use vstd::prelude::*;
use vstd::string::*;

verus! {

/// The system's flag for the ALT key.
pub const MOD_ALT: u32 = 0x0001;

/// The system's flag for the CTRL key.
pub const MOD_CONTROL: u32 = 0x0002;

/// The system's flag for the SHIFT key.
pub const MOD_SHIFT: u32 = 0x0004;

/// The system's flag for the WIN key.
pub const MOD_WIN: u32 = 0x0008;

/// The system's flag that keeps a held hotkey from firing again and again.
pub const MOD_NOREPEAT: u32 = 0x4000;

/// The system's key code of the Enter key.
pub const VK_RETURN: u32 = 0x0D;

/// The number of the message that the system posts when a hotkey fires.
pub const WM_HOTKEY: u32 = 0x0312;

/// The character that joins the tokens of a combination.
pub const JOINER: char = '+';

/// Which configured binding a hotkey belongs to.
#[derive(Clone, Copy, Debug, PartialEq, Eq, Structural)]
pub enum HotkeyType {
    Main,
    Second,
    Third,
}

/// A modifier key.
#[derive(Clone, Copy, Debug, PartialEq, Eq, Structural)]
pub enum Modifier {
    Ctrl,
    Alt,
    Shift,
    Win,
}

/// The modifier that a token names, if it names one.
pub open spec fn modifier_of(token: Seq<char>) -> Option<Modifier> {
    if token == "ALT"@ {
        Some(Modifier::Alt)
    } else if token == "CTRL"@ {
        Some(Modifier::Ctrl)
    } else if token == "SHIFT"@ {
        Some(Modifier::Shift)
    } else if token == "WIN"@ {
        Some(Modifier::Win)
    } else {
        None
    }
}

/// The system's flag for a modifier.
pub open spec fn modifier_bit(m: Modifier) -> u32 {
    match m {
        Modifier::Alt => MOD_ALT,
        Modifier::Ctrl => MOD_CONTROL,
        Modifier::Shift => MOD_SHIFT,
        Modifier::Win => MOD_WIN,
    }
}

/// The flags of all the modifiers in `mods`, or-ed together.
pub open spec fn mask_of(mods: Seq<Modifier>) -> u32
    decreases mods.len(),
{
    if mods.len() == 0 {
        0
    } else {
        mask_of(mods.drop_last()) | modifier_bit(mods.last())
    }
}

/// Whether every token names a modifier.
pub open spec fn all_modifiers(names: Seq<Seq<char>>) -> bool {
    forall|i: int| 0 <= i < names.len() ==> modifier_of(#[trigger] names[i]) is Some
}

/// The modifiers that the tokens name, in order.
pub open spec fn modifiers_of(names: Seq<Seq<char>>) -> Seq<Modifier> {
    Seq::new(names.len(), |i: int| modifier_of(names[i]).unwrap())
}

/// The UTF-16 unit under which the layout is asked for a character: its low
/// sixteen bits.
pub open spec fn code_unit(c: char) -> u16 {
    (c as u32 % 0x10000) as u16
}

/// The key code in the layout's answer: its low byte. The high byte, the
/// shift state, is dropped.
pub open spec fn low_byte(scan: i16) -> u32 {
    (scan as int % 256) as u32
}

impl Modifier {
    /// The modifier that `token` names.
    pub fn parse(token: &str) -> (r: Option<Modifier>)
        ensures
            r == modifier_of(token@),
    {
        if same_text(token, "ALT") {
            Some(Modifier::Alt)
        } else if same_text(token, "CTRL") {
            Some(Modifier::Ctrl)
        } else if same_text(token, "SHIFT") {
            Some(Modifier::Shift)
        } else if same_text(token, "WIN") {
            Some(Modifier::Win)
        } else {
            None
        }
    }

    pub fn bit(self) -> (b: u32)
        ensures
            b == modifier_bit(self),
    {
        match self {
            Modifier::Alt => MOD_ALT,
            Modifier::Ctrl => MOD_CONTROL,
            Modifier::Shift => MOD_SHIFT,
            Modifier::Win => MOD_WIN,
        }
    }
}

/// The mask of the modifiers that `activators` name, or `InvalidModifier`
/// where one of them names none.
pub fn compile_modifiers(activators: &Vec<String>) -> (r: Result<u32, Failure>)
    ensures
        r == if all_modifiers(views(activators@)) {
            Ok::<u32, Failure>(mask_of(modifiers_of(views(activators@))))
        } else {
            Err::<u32, Failure>(Failure::InvalidModifier)
        },
{
    let ghost names = views(activators@);
    let mut code: u32 = 0;
    let mut i: usize = 0;
    assert(modifiers_of(names).take(0) =~= Seq::<Modifier>::empty());
    while i < activators.len()
        invariant
            i <= activators.len(),
            names == views(activators@),
            forall|j: int| 0 <= j < i ==> modifier_of(#[trigger] names[j]) is Some,
            code == mask_of(modifiers_of(names).take(i as int)),
        decreases activators.len() - i,
    {
        match Modifier::parse(activators[i].as_str()) {
            Some(m) => {
                proof {
                    let next = modifiers_of(names).take(i + 1);
                    assert(next.drop_last() =~= modifiers_of(names).take(i as int));
                    assert(next.last() == m);
                }
                code = code | m.bit();
            },
            None => {
                assert(modifier_of(names[i as int]) is None);
                return Err(Failure::InvalidModifier);
            },
        }
        i += 1;
    }
    assert(modifiers_of(names).take(i as int) =~= modifiers_of(names));
    Ok(code)
}

/// A parsed combination: the modifiers in the order they were written, and
/// the token of the one key that completes it.
#[derive(Clone, Debug, PartialEq, Eq)]
pub struct KeyCombination {
    pub modifiers: Vec<Modifier>,
    pub terminal: String,
}

/// What a `KeyCombination` holds.
pub struct CombinationView {
    pub modifiers: Seq<Modifier>,
    pub terminal: Seq<char>,
}

impl View for KeyCombination {
    type V = CombinationView;

    open spec fn view(&self) -> CombinationView {
        CombinationView { modifiers: self.modifiers@, terminal: self.terminal@ }
    }
}

/// What the system registers: the mask of the modifiers and the key code.
#[derive(Clone, Copy, Debug, PartialEq, Eq, Structural)]
pub struct CompiledHotkey {
    pub modifier_mask: u32,
    pub key_code: u32,
}

/// The combination that a list of tokens spells, or why it spells none. The
/// length is judged first, then the modifiers, then the terminal token.
pub open spec fn combination_of(tokens: Seq<Seq<char>>) -> Result<CombinationView, Failure> {
    if tokens.len() < 2 || tokens.len() > 5 {
        Err(Failure::InvalidCombinationLength)
    } else if !all_modifiers(tokens.drop_last()) {
        Err(Failure::InvalidModifier)
    } else if tokens.last().len() == 0 {
        Err(Failure::UnresolvableKey)
    } else {
        Ok(
            CombinationView {
                modifiers: modifiers_of(tokens.drop_last()),
                terminal: tokens.last(),
            },
        )
    }
}

/// The unit that the layout has to resolve for a terminal token. There is
/// none for the Enter key, whose code is fixed, nor for an empty token.
pub open spec fn layout_query_of(terminal: Seq<char>) -> Option<u16> {
    if terminal.len() == 0 || terminal == "RETURN"@ {
        None
    } else {
        Some(code_unit(terminal[0]))
    }
}

/// The key code of a terminal token, given the layout's answer `scan` for
/// its first character. The layout answers -1 where it has no key.
pub open spec fn key_code_of(terminal: Seq<char>, scan: i16) -> Result<u32, Failure> {
    if terminal == "RETURN"@ {
        Ok(VK_RETURN)
    } else if terminal.len() == 0 || scan == -1 {
        Err(Failure::UnresolvableKey)
    } else {
        Ok(low_byte(scan))
    }
}

/// What a combination compiles to under the layout's answer `scan`.
pub open spec fn compiled(c: CombinationView, scan: i16) -> Result<CompiledHotkey, Failure> {
    match key_code_of(c.terminal, scan) {
        Ok(key_code) => Ok(CompiledHotkey { modifier_mask: mask_of(c.modifiers), key_code }),
        Err(e) => Err(e),
    }
}

/// The whole parser: what the text of a combination compiles to under the
/// layout's answer `scan` for its terminal character.
pub open spec fn hotkey_of(text: Seq<char>, scan: i16) -> Result<CompiledHotkey, Failure> {
    match combination_of(tokens_of(text, JOINER)) {
        Ok(c) => compiled(c, scan),
        Err(e) => Err(e),
    }
}

/// The outcome of a parse, with the combination taken by its view.
pub open spec fn parsed_view(r: Result<KeyCombination, Failure>) -> Result<
    CombinationView,
    Failure,
> {
    match r {
        Ok(c) => Ok(c@),
        Err(e) => Err(e),
    }
}

/// The key code in a layout's answer, or `UnresolvableKey` where the answer
/// is -1.
pub fn vkcode_from_scan(scan: i16) -> (r: Result<u32, Failure>)
    ensures
        r == if scan == -1 {
            Err::<u32, Failure>(Failure::UnresolvableKey)
        } else {
            Ok::<u32, Failure>(low_byte(scan))
        },
{
    if scan == -1 {
        return Err(Failure::UnresolvableKey);
    }
    let wide: i32 = scan as i32;
    let unsigned: i32 = if wide < 0 {
        wide + 0x10000
    } else {
        wide
    };
    Ok((unsigned % 256) as u32)
}

impl KeyCombination {
    /// Between one and four modifiers, and a terminal token that is not empty.
    pub open spec fn wf(&self) -> bool {
        &&& 1 <= self.modifiers@.len() <= 4
        &&& self.terminal@.len() > 0
    }

    /// The combination that `tokens` spell.
    pub fn from_tokens(tokens: &Vec<String>) -> (r: Result<KeyCombination, Failure>)
        ensures
            parsed_view(r) == combination_of(views(tokens@)),
            r matches Ok(c) ==> c.wf(),
    {
        let n = tokens.len();
        if n < 2 || n > 5 {
            return Err(Failure::InvalidCombinationLength);
        }
        let ghost names = views(tokens@).drop_last();
        let mut modifiers: Vec<Modifier> = Vec::new();
        let mut i: usize = 0;
        while i < n - 1
            invariant
                2 <= n <= 5,
                n == tokens.len(),
                i <= n - 1,
                names == views(tokens@).drop_last(),
                modifiers.len() == i,
                forall|j: int| 0 <= j < i ==> modifier_of(#[trigger] names[j]) == Some(modifiers[j]),
            decreases n - i,
        {
            match Modifier::parse(tokens[i].as_str()) {
                Some(m) => {
                    modifiers.push(m);
                },
                None => {
                    assert(modifier_of(names[i as int]) is None);
                    return Err(Failure::InvalidModifier);
                },
            }
            i += 1;
        }
        let last = &tokens[n - 1];
        if last.as_str().unicode_len() == 0 {
            return Err(Failure::UnresolvableKey);
        }
        assert(modifiers@ =~= modifiers_of(names));
        Ok(KeyCombination { modifiers, terminal: last.clone() })
    }

    /// Parses a combination such as `CTRL+ALT+W`: tokens joined by `+`, each
    /// trimmed; two to five of them; all but the last a modifier.
    pub fn parse(text: &str) -> (r: Result<KeyCombination, Failure>)
        ensures
            parsed_view(r) == combination_of(tokens_of(text@, JOINER)),
            r == Err::<KeyCombination, Failure>(Failure::InvalidCombinationLength) <==> !(2
                <= tokens_of(text@, JOINER).len() <= 5),
            r matches Ok(c) ==> c.wf(),
    {
        let tokens = split_trimmed(text, JOINER);
        KeyCombination::from_tokens(&tokens)
    }

    /// The mask of the modifiers.
    pub fn modifier_mask(&self) -> (mask: u32)
        ensures
            mask == mask_of(self@.modifiers),
    {
        let mut code: u32 = 0;
        let mut i: usize = 0;
        assert(self.modifiers@.take(0) =~= Seq::<Modifier>::empty());
        while i < self.modifiers.len()
            invariant
                i <= self.modifiers.len(),
                code == mask_of(self.modifiers@.take(i as int)),
            decreases self.modifiers.len() - i,
        {
            proof {
                let next = self.modifiers@.take(i + 1);
                assert(next.drop_last() =~= self.modifiers@.take(i as int));
            }
            code = code | self.modifiers[i].bit();
            i += 1;
        }
        assert(self.modifiers@.take(i as int) =~= self.modifiers@);
        code
    }

    /// The unit to ask the keyboard layout for, if the key code depends on
    /// the layout.
    pub fn layout_query(&self) -> (unit: Option<u16>)
        ensures
            unit == layout_query_of(self@.terminal),
    {
        let token = self.terminal.as_str();
        if token.unicode_len() == 0 || same_text(token, "RETURN") {
            return None;
        }
        let c = token.get_char(0);
        let v: u32 = c as u32;
        let low: u32 = v % 0x10000;
        Some(low as u16)
    }

    /// Compiles the combination. `scan` is the layout's answer to
    /// `layout_query`; it is not looked at where there is no query.
    pub fn compile(&self, scan: i16) -> (r: Result<CompiledHotkey, Failure>)
        ensures
            r == compiled(self@, scan),
            self@.terminal == "RETURN"@ ==> r == Ok::<CompiledHotkey, Failure>(
                CompiledHotkey { modifier_mask: mask_of(self@.modifiers), key_code: VK_RETURN },
            ),
    {
        let token = self.terminal.as_str();
        let key_code = if same_text(token, "RETURN") {
            VK_RETURN
        } else if token.unicode_len() == 0 {
            return Err(Failure::UnresolvableKey);
        } else {
            match vkcode_from_scan(scan) {
                Ok(code) => code,
                Err(e) => {
                    return Err(e);
                },
            }
        };
        Ok(CompiledHotkey { modifier_mask: self.modifier_mask(), key_code })
    }
}

/// One hotkey listener: the hotkey it owns, the slot and command it reports,
/// and whether the system holds its registration.
#[derive(Clone, Debug, PartialEq, Eq)]
pub struct HotkeyListener {
    pub hotkey: CompiledHotkey,
    pub slot: HotkeyType,
    pub command: String,
    pub registered: bool,
}

impl HotkeyListener {
    /// A listener that has not registered its hotkey yet.
    pub fn new(hotkey: CompiledHotkey, slot: HotkeyType, command: String) -> (l: HotkeyListener)
        ensures
            l == (HotkeyListener { hotkey, slot, command, registered: false }),
    {
        HotkeyListener { hotkey, slot, command, registered: false }
    }

    /// The modifiers and the key code to register: the mask with the
    /// no-repeat flag added, and the key code as compiled.
    pub fn registration(&self) -> (r: (u32, u32))
        ensures
            r.0 == self.hotkey.modifier_mask | MOD_NOREPEAT,
            r.1 == self.hotkey.key_code,
    {
        (self.hotkey.modifier_mask | MOD_NOREPEAT, self.hotkey.key_code)
    }

    /// Takes the system's answer to the registration: zero is a refusal.
    pub fn on_registration(&mut self, answer: i32) -> (r: Result<(), Failure>)
        ensures
            r == if answer == 0 {
                Err::<(), Failure>(Failure::HotkeyRegistrationConflict)
            } else {
                Ok::<(), Failure>(())
            },
            *final(self) == (HotkeyListener { registered: answer != 0, ..*old(self) }),
    {
        if answer == 0 {
            self.registered = false;
            Err(Failure::HotkeyRegistrationConflict)
        } else {
            self.registered = true;
            Ok(())
        }
    }

    /// The event to put on the bus for a message from the system's queue:
    /// one, for the message that says the hotkey fired, once registered.
    pub fn on_message(&self, message: u32) -> (r: Option<Message>)
        ensures
            r == if self.registered && message == WM_HOTKEY {
                Some(Message::HotkeyPressed(self.slot, self.command))
            } else {
                None
            },
    {
        if self.registered && message == WM_HOTKEY {
            Some(Message::HotkeyPressed(self.slot, self.command.clone()))
        } else {
            None
        }
    }
}

proof fn lemma_or_bit(x: u32, b: u32, c: u32)
    by (bit_vector)
    requires
        x <= 15,
        b == 1 || b == 2 || b == 4 || b == 8,
        c == 1 || c == 2 || c == 4 || c == 8,
    ensures
        (x | b) <= 15,
        ((x | b) & c != 0) == ((x & c != 0) || b == c),
{
}

proof fn lemma_nibble_equal(x: u32, y: u32)
    by (bit_vector)
    requires
        x <= 15,
        y <= 15,
        (x & 1 != 0) == (y & 1 != 0),
        (x & 2 != 0) == (y & 2 != 0),
        (x & 4 != 0) == (y & 4 != 0),
        (x & 8 != 0) == (y & 8 != 0),
    ensures
        x == y,
{
}

proof fn lemma_zero_has_no_bit(c: u32)
    by (bit_vector)
    ensures
        0u32 & c == 0,
{
}

/// The mask holds the flag of a modifier exactly when the modifier occurs
/// among those it was made of, and holds no other flag.
pub proof fn lemma_mask_members(mods: Seq<Modifier>)
    ensures
        mask_of(mods) <= 15,
        forall|m: Modifier| (mask_of(mods) & #[trigger] modifier_bit(m) != 0) <==> mods.contains(m),
    decreases mods.len(),
{
    if mods.len() == 0 {
        assert forall|m: Modifier| (mask_of(mods) & #[trigger] modifier_bit(m) != 0)
            <==> mods.contains(m) by {
            lemma_zero_has_no_bit(modifier_bit(m));
        }
    } else {
        let init = mods.drop_last();
        let last = mods.last();
        lemma_mask_members(init);
        let x = mask_of(init);
        let b = modifier_bit(last);
        lemma_or_bit(x, b, b);
        assert forall|m: Modifier| (mask_of(mods) & #[trigger] modifier_bit(m) != 0)
            <==> mods.contains(m) by {
            let c = modifier_bit(m);
            lemma_or_bit(x, b, c);
            assert(b == c <==> last == m);
            if init.contains(m) {
                let i = choose|i: int| 0 <= i < init.len() && init[i] == m;
                assert(mods[i] == m);
            }
            if last == m {
                assert(mods[mods.len() - 1] == m);
            }
            if mods.contains(m) {
                let i = choose|i: int| 0 <= i < mods.len() && mods[i] == m;
                if i < mods.len() - 1 {
                    assert(init[i] == m);
                }
            }
        }
    }
}

/// Two lists of modifiers with the same members have the same mask.
pub proof fn lemma_mask_same_members(a: Seq<Modifier>, b: Seq<Modifier>)
    requires
        forall|m: Modifier| a.contains(m) <==> b.contains(m),
    ensures
        mask_of(a) == mask_of(b),
{
    lemma_mask_members(a);
    lemma_mask_members(b);
    let x = mask_of(a);
    let y = mask_of(b);
    assert(modifier_bit(Modifier::Alt) == 1 && modifier_bit(Modifier::Ctrl) == 2 && modifier_bit(
        Modifier::Shift,
    ) == 4 && modifier_bit(Modifier::Win) == 8);
    assert((x & 1 != 0) == a.contains(Modifier::Alt));
    assert((y & 1 != 0) == b.contains(Modifier::Alt));
    assert((x & 2 != 0) == a.contains(Modifier::Ctrl));
    assert((y & 2 != 0) == b.contains(Modifier::Ctrl));
    assert((x & 4 != 0) == a.contains(Modifier::Shift));
    assert((y & 4 != 0) == b.contains(Modifier::Shift));
    assert((x & 8 != 0) == a.contains(Modifier::Win));
    assert((y & 8 != 0) == b.contains(Modifier::Win));
    lemma_nibble_equal(x, y);
}

/// The mask does not depend on the order in which the modifiers are given.
pub proof fn lemma_mask_ignores_order(a: Seq<Modifier>, b: Seq<Modifier>)
    requires
        a.to_multiset() == b.to_multiset(),
    ensures
        mask_of(a) == mask_of(b),
{
    assert forall|m: Modifier| a.contains(m) <==> b.contains(m) by {
        vstd::seq_lib::to_multiset_contains(a, m);
        vstd::seq_lib::to_multiset_contains(b, m);
    }
    lemma_mask_same_members(a, b);
}

proof fn lemma_members_carry_over(a: Seq<Seq<char>>, b: Seq<Seq<char>>, m: Modifier)
    requires
        a.to_multiset() == b.to_multiset(),
        modifiers_of(a).contains(m),
    ensures
        modifiers_of(b).contains(m),
{
    let i = choose|i: int| 0 <= i < modifiers_of(a).len() && modifiers_of(a)[i] == m;
    let token = a[i];
    assert(a.contains(token));
    vstd::seq_lib::to_multiset_contains(a, token);
    vstd::seq_lib::to_multiset_contains(b, token);
    let j = choose|j: int| 0 <= j < b.len() && b[j] == token;
    assert(modifiers_of(b)[j] == m);
}

/// A text with two to five tokens, all but the last of them modifiers,
/// compiles whenever its terminal key has a code, and its mask is then the
/// flags of its modifiers or-ed together.
pub proof fn lemma_modifiers_compile(text: Seq<char>, scan: i16)
    requires
        2 <= tokens_of(text, JOINER).len() <= 5,
        all_modifiers(tokens_of(text, JOINER).drop_last()),
        key_code_of(tokens_of(text, JOINER).last(), scan) is Ok,
    ensures
        hotkey_of(text, scan) is Ok,
        hotkey_of(text, scan).unwrap().modifier_mask == mask_of(
            modifiers_of(tokens_of(text, JOINER).drop_last()),
        ),
{
    reveal_strlit("RETURN");
}

/// Two texts that compile, and whose modifier tokens are the same up to
/// their order, have the same mask.
pub proof fn lemma_token_order_is_immaterial(
    first: Seq<char>,
    second: Seq<char>,
    scan_first: i16,
    scan_second: i16,
)
    requires
        hotkey_of(first, scan_first) is Ok,
        hotkey_of(second, scan_second) is Ok,
        tokens_of(first, JOINER).drop_last().to_multiset() == tokens_of(
            second,
            JOINER,
        ).drop_last().to_multiset(),
    ensures
        hotkey_of(first, scan_first).unwrap().modifier_mask == hotkey_of(
            second,
            scan_second,
        ).unwrap().modifier_mask,
{
    let a = tokens_of(first, JOINER).drop_last();
    let b = tokens_of(second, JOINER).drop_last();
    assert forall|m: Modifier| modifiers_of(a).contains(m) <==> modifiers_of(b).contains(m) by {
        if modifiers_of(a).contains(m) {
            lemma_members_carry_over(a, b, m);
        }
        if modifiers_of(b).contains(m) {
            lemma_members_carry_over(b, a, m);
        }
    }
    lemma_mask_same_members(modifiers_of(a), modifiers_of(b));
}

/// The Enter key has its fixed code whatever the layout answers.
pub proof fn lemma_return_is_fixed(c: CombinationView, scan: i16)
    requires
        c.terminal == "RETURN"@,
    ensures
        compiled(c, scan) == Ok::<CompiledHotkey, Failure>(
            CompiledHotkey { modifier_mask: mask_of(c.modifiers), key_code: VK_RETURN },
        ),
{
}

/// A text with fewer than two or more than five tokens fails for its
/// length, whatever the tokens are and whatever the layout answers.
pub proof fn lemma_length_is_judged_first(text: Seq<char>, scan: i16)
    ensures
        !(2 <= tokens_of(text, JOINER).len() <= 5) <==> hotkey_of(text, scan) == Err::<
            CompiledHotkey,
            Failure,
        >(Failure::InvalidCombinationLength),
{
}

} // verus!
