use vstd::prelude::*;
use crate::text::{
    chars_of, lemma_trim_idempotent, string_from_chars, text_eq, to_uppercase_text, trim, trim_text,
    unicode_uppercase,
};

verus! {

/// The key names that stand for a modifier key, in upper case.
pub open spec fn is_modifier_name(name: Seq<char>) -> bool {
    ||| name == "OPTION"@
    ||| name == "ALT"@
    ||| name == "CONTROL"@
    ||| name == "CTRL"@
    ||| name == "COMMAND"@
    ||| name == "CMD"@
    ||| name == "SUPER"@
    ||| name == "SHIFT"@
    ||| name == "COMMANDORCONTROL"@
    ||| name == "COMMANDORCTRL"@
    ||| name == "CMDORCTRL"@
    ||| name == "CMDORCONTROL"@
}

/// A hotkey token that names a modifier key, in any case and with surrounding white space.
pub open spec fn is_modifier_token_text(token: Seq<char>) -> bool {
    is_modifier_name(unicode_uppercase(trim(token)))
}

fn is_modifier_name_text(name: &str) -> (r: bool)
    ensures
        r == is_modifier_name(name@),
{
    text_eq(name, "OPTION") || text_eq(name, "ALT") || text_eq(name, "CONTROL") || text_eq(
        name,
        "CTRL",
    ) || text_eq(name, "COMMAND") || text_eq(name, "CMD") || text_eq(name, "SUPER") || text_eq(
        name,
        "SHIFT",
    ) || text_eq(name, "COMMANDORCONTROL") || text_eq(name, "COMMANDORCTRL") || text_eq(
        name,
        "CMDORCTRL",
    ) || text_eq(name, "CMDORCONTROL")
}

/// True when the token names a modifier key.
pub fn is_modifier_token(token: &str) -> (r: bool)
    ensures
        r == is_modifier_token_text(token@),
{
    let trimmed = trim_text(token);
    let upper = to_uppercase_text(trimmed.as_str());
    is_modifier_name_text(upper.as_str())
}

/// The pieces of a text between `+` signs (one piece for a text without `+`).
pub open spec fn split_plus(s: Seq<char>) -> Seq<Seq<char>>
    decreases s.len(),
{
    if s.len() == 0 {
        seq![seq![]]
    } else {
        let pieces = split_plus(s.drop_last());
        if s.last() == '+' {
            pieces.push(seq![])
        } else {
            pieces.update(pieces.len() - 1, pieces.last().push(s.last()))
        }
    }
}

proof fn lemma_split_plus_not_empty(s: Seq<char>)
    ensures
        split_plus(s).len() > 0,
    decreases s.len(),
{
    if s.len() > 0 {
        lemma_split_plus_not_empty(s.drop_last());
    }
}

/// The non-blank pieces of a hotkey, trimmed, in order.
pub open spec fn tokens_of(pieces: Seq<Seq<char>>) -> Seq<Seq<char>>
    decreases pieces.len(),
{
    if pieces.len() == 0 {
        seq![]
    } else {
        let acc = tokens_of(pieces.drop_last());
        if trim(pieces.last()).len() == 0 {
            acc
        } else {
            acc.push(trim(pieces.last()))
        }
    }
}

/// The tokens of a hotkey such as `Ctrl+Option+Space`.
pub open spec fn hotkey_tokens(hotkey: Seq<char>) -> Seq<Seq<char>> {
    tokens_of(split_plus(hotkey))
}

/// A hotkey made of modifier keys only.
pub open spec fn is_modifier_only(hotkey: Seq<char>) -> bool {
    let tokens = hotkey_tokens(hotkey);
    tokens.len() > 0 && forall|i: int| 0 <= i < tokens.len() ==> is_modifier_token_text(#[trigger] tokens[i])
}

/// The texts of a list of strings.
pub open spec fn string_texts(v: Seq<String>) -> Seq<Seq<char>> {
    v.map_values(|s: String| s@)
}

/// The pieces of a text between `+` signs.
pub fn split_at_plus(s: &str) -> (r: Vec<String>)
    ensures
        string_texts(r@) == split_plus(s@),
{
    let v = chars_of(s);
    let mut pieces: Vec<String> = Vec::new();
    let mut current: Vec<char> = Vec::new();
    let mut k: usize = 0;
    proof {
        assert(v@.take(0) =~= Seq::<char>::empty());
    }
    while k < v.len()
        invariant
            k <= v.len(),
            v@ == s@,
            string_texts(pieces@) + seq![current@] == split_plus(v@.take(k as int)),
        decreases v.len() - k,
    {
        proof {
            assert(v@.take(k + 1).drop_last() =~= v@.take(k as int));
            assert(v@.take(k + 1).last() == v@[k as int]);
            lemma_split_plus_not_empty(v@.take(k as int));
        }
        let ghost before = split_plus(v@.take(k as int));
        if v[k] == '+' {
            let piece = string_from_chars(current.as_slice());
            pieces.push(piece);
            current = Vec::new();
            assert(string_texts(pieces@) + seq![current@] =~= before.push(seq![]));
        } else {
            current.push(v[k]);
            assert(string_texts(pieces@) + seq![current@] =~= before.update(
                before.len() - 1,
                before.last().push(v@[k as int]),
            ));
        }
        k = k + 1;
    }
    assert(v@.take(v.len() as int) =~= v@);
    let last = string_from_chars(current.as_slice());
    pieces.push(last);
    assert(string_texts(pieces@) =~= split_plus(s@));
    pieces
}

/// The tokens of a hotkey: the non-blank pieces between `+` signs, trimmed.
pub fn hotkey_token_list(hotkey: &str) -> (r: Vec<String>)
    ensures
        string_texts(r@) == hotkey_tokens(hotkey@),
{
    let pieces = split_at_plus(hotkey);
    let ghost ps = string_texts(pieces@);
    let mut tokens: Vec<String> = Vec::new();
    let mut k: usize = 0;
    while k < pieces.len()
        invariant
            k <= pieces.len(),
            ps == string_texts(pieces@),
            ps == split_plus(hotkey@),
            string_texts(tokens@) == tokens_of(ps.take(k as int)),
        decreases pieces.len() - k,
    {
        proof {
            assert(ps.take(k + 1).drop_last() =~= ps.take(k as int));
            assert(ps.take(k + 1).last() == pieces@[k as int]@);
        }
        let t = trim_text(pieces[k].as_str());
        if t.as_str().unicode_len() != 0 {
            tokens.push(t);
            assert(string_texts(tokens@) =~= tokens_of(ps.take(k as int)).push(trim(pieces@[k as int]@)));
        }
        k = k + 1;
    }
    assert(ps.take(pieces.len() as int) =~= ps);
    tokens
}

/// True when the hotkey is made of modifier keys only.
pub fn is_modifier_only_hotkey(hotkey: &str) -> (r: bool)
    ensures
        r == is_modifier_only(hotkey@),
{
    let tokens = hotkey_token_list(hotkey);
    let ghost ts = hotkey_tokens(hotkey@);
    if tokens.len() == 0 {
        return false;
    }
    let mut k: usize = 0;
    while k < tokens.len()
        invariant
            k <= tokens.len(),
            ts == string_texts(tokens@),
            ts == hotkey_tokens(hotkey@),
            forall|i: int| 0 <= i < k ==> is_modifier_token_text(#[trigger] ts[i]),
        decreases tokens.len() - k,
    {
        if !is_modifier_token(tokens[k].as_str()) {
            assert(!is_modifier_token_text(ts[k as int]));
            return false;
        }
        k = k + 1;
    }
    true
}

/// The Shift modifier flag.
pub const SHIFT_FLAG: u64 = 0x0002_0000;
/// The Control modifier flag.
pub const CONTROL_FLAG: u64 = 0x0004_0000;
/// The Option (Alt) modifier flag.
pub const ALTERNATE_FLAG: u64 = 0x0008_0000;
/// The Command modifier flag.
pub const COMMAND_FLAG: u64 = 0x0010_0000;
/// The four modifier flags together.
pub const MODIFIER_FLAGS: u64 = 0x001E_0000;

/// The modifier flag of a key name in upper case, if it names a modifier.
pub open spec fn modifier_flag(name: Seq<char>) -> Option<u64> {
    if name == "OPTION"@ || name == "ALT"@ {
        Some(ALTERNATE_FLAG)
    } else if name == "CONTROL"@ || name == "CTRL"@ {
        Some(CONTROL_FLAG)
    } else if name == "COMMAND"@ || name == "CMD"@ || name == "SUPER"@ {
        Some(COMMAND_FLAG)
    } else if name == "SHIFT"@ {
        Some(SHIFT_FLAG)
    } else if name == "COMMANDORCONTROL"@ || name == "COMMANDORCTRL"@ || name == "CMDORCTRL"@
        || name == "CMDORCONTROL"@ {
        Some(COMMAND_FLAG)
    } else {
        None
    }
}

/// The flags of the tokens or-ed together, `None` when a token names no modifier.
pub open spec fn flags_of_tokens(tokens: Seq<Seq<char>>) -> Option<u64>
    decreases tokens.len(),
{
    if tokens.len() == 0 {
        Some(0)
    } else {
        match (flags_of_tokens(tokens.drop_last()), modifier_flag(unicode_uppercase(tokens.last()))) {
            (Some(acc), Some(flag)) => Some(acc | flag),
            _ => None,
        }
    }
}

/// The modifier flags a modifier-only hotkey holds down; `None` when a token names no modifier
/// or there is no token.
pub open spec fn hotkey_modifier_mask(hotkey: Seq<char>) -> Option<u64> {
    match flags_of_tokens(hotkey_tokens(hotkey)) {
        Some(mask) => if mask == 0 {
            None
        } else {
            Some(mask)
        },
        None => None,
    }
}

/// The key names of the Command key (the "command or control" names included; macOS reads them
/// as Command).
pub open spec fn names_command_key(n: Seq<char>) -> bool {
    ||| n == "COMMAND"@
    ||| n == "CMD"@
    ||| n == "SUPER"@
    ||| n == "COMMANDORCONTROL"@
    ||| n == "COMMANDORCTRL"@
    ||| n == "CMDORCTRL"@
    ||| n == "CMDORCONTROL"@
}

/// The key names of the Control key.
pub open spec fn names_control_key(n: Seq<char>) -> bool {
    n == "CONTROL"@ || n == "CTRL"@
}

/// The key names of the Option key.
pub open spec fn names_option_key(n: Seq<char>) -> bool {
    n == "OPTION"@ || n == "ALT"@
}

/// The key names of the Shift key.
pub open spec fn names_shift_key(n: Seq<char>) -> bool {
    n == "SHIFT"@
}

/// Each modifier key name stands for its own macOS flag: Option and Alt for 0x80000, Control and
/// Ctrl for 0x40000, Command, Cmd, Super and the four "command or control" names for 0x100000,
/// Shift for 0x20000; every other name stands for none.
pub proof fn lemma_modifier_flag_table(n: Seq<char>)
    ensures
        n == "OPTION"@ ==> modifier_flag(n) == Some(0x0008_0000u64),
        n == "ALT"@ ==> modifier_flag(n) == Some(0x0008_0000u64),
        n == "CONTROL"@ ==> modifier_flag(n) == Some(0x0004_0000u64),
        n == "CTRL"@ ==> modifier_flag(n) == Some(0x0004_0000u64),
        n == "COMMAND"@ ==> modifier_flag(n) == Some(0x0010_0000u64),
        n == "CMD"@ ==> modifier_flag(n) == Some(0x0010_0000u64),
        n == "SUPER"@ ==> modifier_flag(n) == Some(0x0010_0000u64),
        n == "SHIFT"@ ==> modifier_flag(n) == Some(0x0002_0000u64),
        n == "COMMANDORCONTROL"@ ==> modifier_flag(n) == Some(0x0010_0000u64),
        n == "COMMANDORCTRL"@ ==> modifier_flag(n) == Some(0x0010_0000u64),
        n == "CMDORCTRL"@ ==> modifier_flag(n) == Some(0x0010_0000u64),
        n == "CMDORCONTROL"@ ==> modifier_flag(n) == Some(0x0010_0000u64),
        !names_command_key(n) && !names_control_key(n) && !names_option_key(n)
            && !names_shift_key(n) ==> modifier_flag(n) is None,
{
    reveal_strlit("OPTION");
    reveal_strlit("ALT");
    reveal_strlit("CONTROL");
    reveal_strlit("CTRL");
    reveal_strlit("COMMAND");
    reveal_strlit("CMD");
    reveal_strlit("SUPER");
    reveal_strlit("SHIFT");
    reveal_strlit("COMMANDORCONTROL");
    reveal_strlit("COMMANDORCTRL");
    reveal_strlit("CMDORCTRL");
    reveal_strlit("CMDORCONTROL");
    if n == "OPTION"@ {
        assert(n.len() == 6);
    }
    if n == "ALT"@ {
        assert(n.len() == 3);
        assert(n[0] != "CMD"@[0]);
        assert(n != "CMD"@);
    }
    if n == "CONTROL"@ {
        assert(n.len() == 7);
        assert(n[2] != "COMMAND"@[2]);
        assert(n != "COMMAND"@);
    }
    if n == "CTRL"@ {
        assert(n.len() == 4);
    }
    if n == "COMMAND"@ {
        assert(n.len() == 7);
        assert(n[2] != "CONTROL"@[2]);
        assert(n != "CONTROL"@);
    }
    if n == "CMD"@ {
        assert(n.len() == 3);
        assert(n[0] != "ALT"@[0]);
        assert(n != "ALT"@);
    }
    if n == "SUPER"@ {
        assert(n.len() == 5);
        assert(n[1] != "SHIFT"@[1]);
        assert(n != "SHIFT"@);
    }
    if n == "SHIFT"@ {
        assert(n.len() == 5);
        assert(n[1] != "SUPER"@[1]);
        assert(n != "SUPER"@);
    }
    if n == "COMMANDORCONTROL"@ {
        assert(n.len() == 16);
    }
    if n == "COMMANDORCTRL"@ {
        assert(n.len() == 13);
    }
    if n == "CMDORCTRL"@ {
        assert(n.len() == 9);
    }
    if n == "CMDORCONTROL"@ {
        assert(n.len() == 12);
    }
    if !names_command_key(n) && !names_control_key(n) && !names_option_key(n) && !names_shift_key(n) {
        assert(modifier_flag(n) is None);
    }
}

/// What each modifier name stands for, by flag: a name has the Command flag exactly when it names
/// the Command key, and likewise for Control, Option and Shift.
proof fn lemma_flag_of_name(n: Seq<char>, f: u64)
    requires
        modifier_flag(n) == Some(f),
    ensures
        (f & 0x0010_0000 != 0) == names_command_key(n),
        (f & 0x0004_0000 != 0) == names_control_key(n),
        (f & 0x0008_0000 != 0) == names_option_key(n),
        (f & 0x0002_0000 != 0) == names_shift_key(n),
        f & 0xFFFF_FFFF_FFE1_FFFF == 0,
{
    lemma_modifier_flag_table(n);
    assert(0x0010_0000u64 & 0x0010_0000 != 0 && 0x0010_0000u64 & 0x0004_0000 == 0
        && 0x0010_0000u64 & 0x0008_0000 == 0 && 0x0010_0000u64 & 0x0002_0000 == 0
        && 0x0010_0000u64 & 0xFFFF_FFFF_FFE1_FFFF == 0) by (bit_vector);
    assert(0x0004_0000u64 & 0x0010_0000 == 0 && 0x0004_0000u64 & 0x0004_0000 != 0
        && 0x0004_0000u64 & 0x0008_0000 == 0 && 0x0004_0000u64 & 0x0002_0000 == 0
        && 0x0004_0000u64 & 0xFFFF_FFFF_FFE1_FFFF == 0) by (bit_vector);
    assert(0x0008_0000u64 & 0x0010_0000 == 0 && 0x0008_0000u64 & 0x0004_0000 == 0
        && 0x0008_0000u64 & 0x0008_0000 != 0 && 0x0008_0000u64 & 0x0002_0000 == 0
        && 0x0008_0000u64 & 0xFFFF_FFFF_FFE1_FFFF == 0) by (bit_vector);
    assert(0x0002_0000u64 & 0x0010_0000 == 0 && 0x0002_0000u64 & 0x0004_0000 == 0
        && 0x0002_0000u64 & 0x0008_0000 == 0 && 0x0002_0000u64 & 0x0002_0000 != 0
        && 0x0002_0000u64 & 0xFFFF_FFFF_FFE1_FFFF == 0) by (bit_vector);
}

proof fn lemma_or_bits(a: u64, b: u64)
    ensures
        ((a | b) & 0x0010_0000 != 0) == ((a & 0x0010_0000 != 0) || (b & 0x0010_0000 != 0)),
        ((a | b) & 0x0004_0000 != 0) == ((a & 0x0004_0000 != 0) || (b & 0x0004_0000 != 0)),
        ((a | b) & 0x0008_0000 != 0) == ((a & 0x0008_0000 != 0) || (b & 0x0008_0000 != 0)),
        ((a | b) & 0x0002_0000 != 0) == ((a & 0x0002_0000 != 0) || (b & 0x0002_0000 != 0)),
        (a & 0xFFFF_FFFF_FFE1_FFFF == 0 && b & 0xFFFF_FFFF_FFE1_FFFF == 0) ==> (a | b)
            & 0xFFFF_FFFF_FFE1_FFFF == 0,
{
    assert(((a | b) & 0x0010_0000 != 0) == ((a & 0x0010_0000 != 0) || (b & 0x0010_0000 != 0))) by (bit_vector);
    assert(((a | b) & 0x0004_0000 != 0) == ((a & 0x0004_0000 != 0) || (b & 0x0004_0000 != 0))) by (bit_vector);
    assert(((a | b) & 0x0008_0000 != 0) == ((a & 0x0008_0000 != 0) || (b & 0x0008_0000 != 0))) by (bit_vector);
    assert(((a | b) & 0x0002_0000 != 0) == ((a & 0x0002_0000 != 0) || (b & 0x0002_0000 != 0))) by (bit_vector);
    assert((a & 0xFFFF_FFFF_FFE1_FFFF == 0 && b & 0xFFFF_FFFF_FFE1_FFFF == 0) ==> (a | b)
        & 0xFFFF_FFFF_FFE1_FFFF == 0) by (bit_vector);
}

proof fn lemma_some_token_split(ts: Seq<Seq<char>>, p: spec_fn(Seq<char>) -> bool)
    requires
        ts.len() > 0,
    ensures
        (exists|i: int| 0 <= i < ts.len() && p(#[trigger] unicode_uppercase(ts[i]))) == ((exists|i: int|
            0 <= i < ts.drop_last().len() && p(#[trigger] unicode_uppercase(ts.drop_last()[i])))
            || p(unicode_uppercase(ts.last()))),
{
    let init = ts.drop_last();
    if exists|i: int| 0 <= i < ts.len() && p(#[trigger] unicode_uppercase(ts[i])) {
        let i = choose|i: int| 0 <= i < ts.len() && p(#[trigger] unicode_uppercase(ts[i]));
        if i < init.len() {
            assert(init[i] == ts[i]);
            assert(p(unicode_uppercase(init[i])));
        } else {
            assert(ts[i] == ts.last());
        }
    }
    if exists|i: int| 0 <= i < init.len() && p(#[trigger] unicode_uppercase(init[i])) {
        let i = choose|i: int| 0 <= i < init.len() && p(#[trigger] unicode_uppercase(init[i]));
        assert(init[i] == ts[i]);
        assert(p(unicode_uppercase(ts[i])));
    }
    if p(unicode_uppercase(ts.last())) {
        assert(ts[ts.len() - 1] == ts.last());
        assert(p(unicode_uppercase(ts[ts.len() - 1])));
    }
}

/// The mask of a list of modifier tokens holds, among its bits, exactly the flags the tokens
/// name: the Command flag (0x100000) when some token names the Command key, the Control flag
/// (0x40000) when some token names Control, the Option flag (0x80000) when some token names
/// Option, the Shift flag (0x20000) when some token names Shift, and no other bit.
pub proof fn lemma_mask_holds_named_modifiers(ts: Seq<Seq<char>>)
    ensures
        flags_of_tokens(ts) matches Some(m) ==> {
            &&& m & 0xFFFF_FFFF_FFE1_FFFF == 0
            &&& (m & 0x0010_0000 != 0) == (exists|i: int|
                0 <= i < ts.len() && names_command_key(#[trigger] unicode_uppercase(ts[i])))
            &&& (m & 0x0004_0000 != 0) == (exists|i: int|
                0 <= i < ts.len() && names_control_key(#[trigger] unicode_uppercase(ts[i])))
            &&& (m & 0x0008_0000 != 0) == (exists|i: int|
                0 <= i < ts.len() && names_option_key(#[trigger] unicode_uppercase(ts[i])))
            &&& (m & 0x0002_0000 != 0) == (exists|i: int|
                0 <= i < ts.len() && names_shift_key(#[trigger] unicode_uppercase(ts[i])))
        },
    decreases ts.len(),
{
    if ts.len() == 0 {
        assert(0u64 & 0xFFFF_FFFF_FFE1_FFFF == 0 && 0u64 & 0x0010_0000 == 0 && 0u64 & 0x0004_0000 == 0
            && 0u64 & 0x0008_0000 == 0 && 0u64 & 0x0002_0000 == 0) by (bit_vector);
    } else {
        let init = ts.drop_last();
        lemma_mask_holds_named_modifiers(init);
        if flags_of_tokens(ts) is Some {
            let acc = flags_of_tokens(init)->0;
            let last = unicode_uppercase(ts.last());
            let f = modifier_flag(last)->0;
            lemma_flag_of_name(last, f);
            lemma_or_bits(acc, f);
            lemma_some_token_split(ts, |n: Seq<char>| names_command_key(n));
            lemma_some_token_split(ts, |n: Seq<char>| names_control_key(n));
            lemma_some_token_split(ts, |n: Seq<char>| names_option_key(n));
            lemma_some_token_split(ts, |n: Seq<char>| names_shift_key(n));
        }
    }
}

/// The mask that listening to a hotkey uses holds exactly the flags its tokens name (see
/// `lemma_mask_holds_named_modifiers`): e.g. a hotkey of Command and Shift names has the mask
/// 0x120000, and one of Control and Shift names the mask 0x60000.
pub proof fn lemma_hotkey_mask_holds_named_modifiers(hotkey: Seq<char>)
    ensures
        hotkey_modifier_mask(hotkey) matches Some(m) ==> {
            &&& m & 0xFFFF_FFFF_FFE1_FFFF == 0
            &&& (m & 0x0010_0000 != 0) == (exists|i: int|
                0 <= i < hotkey_tokens(hotkey).len() && names_command_key(
                    #[trigger] unicode_uppercase(hotkey_tokens(hotkey)[i]),
                ))
            &&& (m & 0x0004_0000 != 0) == (exists|i: int|
                0 <= i < hotkey_tokens(hotkey).len() && names_control_key(
                    #[trigger] unicode_uppercase(hotkey_tokens(hotkey)[i]),
                ))
            &&& (m & 0x0008_0000 != 0) == (exists|i: int|
                0 <= i < hotkey_tokens(hotkey).len() && names_option_key(
                    #[trigger] unicode_uppercase(hotkey_tokens(hotkey)[i]),
                ))
            &&& (m & 0x0002_0000 != 0) == (exists|i: int|
                0 <= i < hotkey_tokens(hotkey).len() && names_shift_key(
                    #[trigger] unicode_uppercase(hotkey_tokens(hotkey)[i]),
                ))
        },
{
    lemma_mask_holds_named_modifiers(hotkey_tokens(hotkey));
}

fn modifier_flag_of(name: &str) -> (r: Option<u64>)
    ensures
        r == modifier_flag(name@),
{
    if text_eq(name, "OPTION") || text_eq(name, "ALT") {
        Some(ALTERNATE_FLAG)
    } else if text_eq(name, "CONTROL") || text_eq(name, "CTRL") {
        Some(CONTROL_FLAG)
    } else if text_eq(name, "COMMAND") || text_eq(name, "CMD") || text_eq(name, "SUPER") {
        Some(COMMAND_FLAG)
    } else if text_eq(name, "SHIFT") {
        Some(SHIFT_FLAG)
    } else if text_eq(name, "COMMANDORCONTROL") || text_eq(name, "COMMANDORCTRL") || text_eq(
        name,
        "CMDORCTRL",
    ) || text_eq(name, "CMDORCONTROL") {
        Some(COMMAND_FLAG)
    } else {
        None
    }
}

/// The modifier flags that a modifier-only hotkey holds down.
pub fn modifier_mask_for_hotkey(hotkey: &str) -> (r: Option<u64>)
    ensures
        r == hotkey_modifier_mask(hotkey@),
{
    let tokens = hotkey_token_list(hotkey);
    let ghost ts = hotkey_tokens(hotkey@);
    let mut mask: u64 = 0;
    let mut k: usize = 0;
    while k < tokens.len()
        invariant
            k <= tokens.len(),
            ts == string_texts(tokens@),
            ts == hotkey_tokens(hotkey@),
            flags_of_tokens(ts.take(k as int)) == Some(mask),
        decreases tokens.len() - k,
    {
        proof {
            assert(ts.take(k + 1).drop_last() =~= ts.take(k as int));
            assert(ts.take(k + 1).last() == tokens@[k as int]@);
        }
        let upper = to_uppercase_text(tokens[k].as_str());
        match modifier_flag_of(upper.as_str()) {
            Some(flag) => {
                mask = mask | flag;
            },
            None => {
                proof {
                    assert(ts[k as int] == tokens@[k as int]@);
                    assert(flags_of_tokens(ts.take(k + 1)) is None);
                    lemma_no_flags_after(ts, (k + 1) as int);
                    assert(ts.take(ts.len() as int) =~= ts);
                }
                return None;
            },
        }
        k = k + 1;
    }
    assert(ts.take(tokens.len() as int) =~= ts);
    if mask == 0 {
        None
    } else {
        Some(mask)
    }
}

proof fn lemma_no_flags_after(ts: Seq<Seq<char>>, k: int)
    requires
        0 < k <= ts.len(),
        flags_of_tokens(ts.take(k)) is None,
    ensures
        flags_of_tokens(ts) is None,
    decreases ts.len() - k,
{
    if k < ts.len() {
        assert(ts.take(k + 1).drop_last() =~= ts.take(k));
        lemma_no_flags_after(ts, k + 1);
    } else {
        assert(ts.take(k) =~= ts);
    }
}

proof fn lemma_tokens_trimmed(pieces: Seq<Seq<char>>)
    ensures
        forall|i: int| 0 <= i < tokens_of(pieces).len() ==> trim(#[trigger] tokens_of(pieces)[i]) == tokens_of(pieces)[i],
    decreases pieces.len(),
{
    if pieces.len() > 0 {
        lemma_tokens_trimmed(pieces.drop_last());
        lemma_trim_idempotent(pieces.last());
        let acc = tokens_of(pieces.drop_last());
        let t = tokens_of(pieces);
        assert forall|i: int| 0 <= i < t.len() implies trim(#[trigger] t[i]) == t[i] by {
            if i < acc.len() {
                assert(t[i] == acc[i]);
            }
        }
    }
}

proof fn lemma_flag_nonzero(name: Seq<char>)
    ensures
        modifier_flag(name) matches Some(f) ==> f != 0,
{
}

proof fn lemma_or_nonzero(a: u64, b: u64)
    requires
        b != 0,
    ensures
        a | b != 0,
{
    assert(b != 0 ==> a | b != 0) by (bit_vector);
}

proof fn lemma_flags_match_modifiers(tokens: Seq<Seq<char>>)
    requires
        forall|i: int| 0 <= i < tokens.len() ==> trim(#[trigger] tokens[i]) == tokens[i],
    ensures
        flags_of_tokens(tokens) is Some <==> forall|i: int| 0 <= i < tokens.len() ==> is_modifier_token_text(#[trigger] tokens[i]),
        tokens.len() > 0 && flags_of_tokens(tokens) is Some ==> flags_of_tokens(tokens)->0 != 0,
    decreases tokens.len(),
{
    if tokens.len() > 0 {
        let init = tokens.drop_last();
        assert forall|i: int| 0 <= i < init.len() implies trim(#[trigger] init[i]) == init[i] by {
            assert(init[i] == tokens[i]);
        }
        lemma_flags_match_modifiers(init);
        let last = tokens.last();
        assert(trim(tokens[tokens.len() - 1]) == tokens[tokens.len() - 1]);
        assert(is_modifier_token_text(last) == (modifier_flag(unicode_uppercase(last)) is Some));
        lemma_flag_nonzero(unicode_uppercase(last));
        if flags_of_tokens(tokens) is Some {
            lemma_or_nonzero(flags_of_tokens(init)->0, modifier_flag(unicode_uppercase(last))->0);
            assert forall|i: int| 0 <= i < tokens.len() implies is_modifier_token_text(#[trigger] tokens[i]) by {
                if i < init.len() {
                    assert(tokens[i] == init[i]);
                }
            }
        } else {
            if forall|i: int| 0 <= i < tokens.len() ==> is_modifier_token_text(#[trigger] tokens[i]) {
                assert forall|i: int| 0 <= i < init.len() implies is_modifier_token_text(#[trigger] init[i]) by {
                    assert(init[i] == tokens[i]);
                }
                assert(is_modifier_token_text(tokens[tokens.len() - 1]));
            }
        }
    }
}

/// A hotkey is routed to the modifier watcher exactly when the watcher can listen to it: a
/// modifier-only hotkey always has a non-empty modifier mask, and a hotkey with a mask is
/// modifier-only.
pub proof fn lemma_modifier_only_has_mask(hotkey: Seq<char>)
    ensures
        is_modifier_only(hotkey) <==> hotkey_modifier_mask(hotkey) is Some,
{
    lemma_tokens_trimmed(split_plus(hotkey));
    lemma_flags_match_modifiers(hotkey_tokens(hotkey));
}

/// A change of a hotkey's state.
#[derive(Debug, Clone, Copy, PartialEq, Eq, Structural)]
pub enum ShortcutTransition {
    Pressed,
    Released,
}

/// The hotkey is held down when exactly its modifier flags, among the four modifiers, are set.
pub open spec fn modifiers_pressed(flags: u64, target: u64) -> bool {
    flags & MODIFIER_FLAGS == target
}

/// The transition to report when the hotkey is held down (`pressed`) after it was
/// (`was_pressed`): none when nothing changed.
pub open spec fn poll_transition(pressed: bool, was_pressed: bool) -> Option<ShortcutTransition> {
    if pressed == was_pressed {
        None
    } else if pressed {
        Some(ShortcutTransition::Pressed)
    } else {
        Some(ShortcutTransition::Released)
    }
}

/// One poll: whether the hotkey is held down at the reading, and the transition to report.
pub open spec fn poll_step(flags: u64, target: u64, was_pressed: bool) -> (bool, Option<
    ShortcutTransition,
>) {
    let pressed = modifiers_pressed(flags, target);
    (pressed, poll_transition(pressed, was_pressed))
}

/// One poll of a modifier-only hotkey: whether it is held down now, and the transition to report
/// when that differs from the previous poll.
pub fn modifier_poll(flags: u64, target: u64, was_pressed: bool) -> (r: (bool, Option<ShortcutTransition>))
    ensures
        r == poll_step(flags, target, was_pressed),
{
    let pressed = flags & MODIFIER_FLAGS == target;
    let transition = if pressed == was_pressed {
        None
    } else if pressed {
        Some(ShortcutTransition::Pressed)
    } else {
        Some(ShortcutTransition::Released)
    };
    (pressed, transition)
}

/// The transitions that polling reports over a run of readings, starting from `was_pressed`:
/// each poll starts from the state the previous one found.
pub open spec fn poll_events(readings: Seq<u64>, target: u64, was_pressed: bool) -> Seq<
    Option<ShortcutTransition>,
>
    decreases readings.len(),
{
    if readings.len() == 0 {
        seq![]
    } else {
        let step = poll_step(readings[0], target, was_pressed);
        seq![step.1] + poll_events(readings.skip(1), target, step.0)
    }
}

/// Whether the hotkey was held down before reading `i`: at the start, `was_pressed`; after that,
/// as the reading before found it.
pub open spec fn pressed_before(readings: Seq<u64>, target: u64, was_pressed: bool, i: int) -> bool {
    if i == 0 {
        was_pressed
    } else {
        modifiers_pressed(readings[i - 1], target)
    }
}

proof fn lemma_poll_events_at(readings: Seq<u64>, target: u64, was_pressed: bool)
    ensures
        poll_events(readings, target, was_pressed).len() == readings.len(),
        forall|i: int|
            0 <= i < readings.len() ==> #[trigger] poll_events(readings, target, was_pressed)[i]
                == poll_transition(
                modifiers_pressed(readings[i], target),
                pressed_before(readings, target, was_pressed, i),
            ),
    decreases readings.len(),
{
    if readings.len() > 0 {
        let rest = readings.skip(1);
        let p = modifiers_pressed(readings[0], target);
        lemma_poll_events_at(rest, target, p);
        let ev = poll_events(readings, target, was_pressed);
        assert forall|i: int| 0 <= i < readings.len() implies #[trigger] ev[i] == poll_transition(
            modifiers_pressed(readings[i], target),
            pressed_before(readings, target, was_pressed, i),
        ) by {
            if i > 0 {
                assert(ev[i] == poll_events(rest, target, p)[i - 1]);
                assert(rest[i - 1] == readings[i]);
                if i > 1 {
                    assert(rest[i - 2] == readings[i - 1]);
                }
            }
        }
    }
}

proof fn lemma_quiet_polls_keep_state(readings: Seq<u64>, target: u64, was_pressed: bool, i: int, j: int)
    requires
        0 <= i <= j < readings.len(),
        forall|k: int| i < k <= j ==> #[trigger] poll_events(readings, target, was_pressed)[k] is None,
    ensures
        modifiers_pressed(readings[j], target) == modifiers_pressed(readings[i], target),
    decreases j - i,
{
    lemma_poll_events_at(readings, target, was_pressed);
    if j > i {
        lemma_quiet_polls_keep_state(readings, target, was_pressed, i, j - 1);
        assert(poll_events(readings, target, was_pressed)[j] is None);
    }
}

proof fn lemma_quiet_start_keeps_state(readings: Seq<u64>, target: u64, was_pressed: bool, j: int)
    requires
        0 <= j < readings.len(),
        forall|k: int| 0 <= k <= j ==> #[trigger] poll_events(readings, target, was_pressed)[k] is None,
    ensures
        modifiers_pressed(readings[j], target) == was_pressed,
    decreases j,
{
    lemma_poll_events_at(readings, target, was_pressed);
    assert(poll_events(readings, target, was_pressed)[j] is None);
    if j > 0 {
        lemma_quiet_start_keeps_state(readings, target, was_pressed, j - 1);
    }
}

/// Polling a modifier-only hotkey over a run of readings reports a transition exactly where the
/// hotkey's state changes from the reading before (from `was_pressed` at the first): `Pressed`
/// where it goes down, `Released` where it comes up. The transitions alternate, and the first is
/// `Pressed` exactly when the hotkey was up at the start. Starting from the state of a first
/// reading, as the watcher does, that first reading itself reports nothing.
pub proof fn lemma_modifier_polls_alternate(readings: Seq<u64>, target: u64, was_pressed: bool)
    ensures
        poll_events(readings, target, was_pressed).len() == readings.len(),
        forall|i: int|
            0 <= i < readings.len() ==> #[trigger] poll_events(readings, target, was_pressed)[i]
                == poll_transition(
                modifiers_pressed(readings[i], target),
                pressed_before(readings, target, was_pressed, i),
            ),
        forall|i: int, j: int|
            0 <= i < j < readings.len() && poll_events(readings, target, was_pressed)[i] is Some
                && poll_events(readings, target, was_pressed)[j] is Some && (forall|k: int|
                i < k < j ==> #[trigger] poll_events(readings, target, was_pressed)[k] is None)
                ==> #[trigger] poll_events(readings, target, was_pressed)[i]
                != #[trigger] poll_events(readings, target, was_pressed)[j],
        forall|j: int|
            0 <= j < readings.len() && #[trigger] poll_events(readings, target, was_pressed)[j] is Some
                && (forall|k: int| 0 <= k < j ==> #[trigger] poll_events(readings, target, was_pressed)[k] is None)
                ==> (poll_events(readings, target, was_pressed)[j] == Some(ShortcutTransition::Pressed)
                <==> !was_pressed),
        readings.len() > 0 ==> poll_events(readings, target, modifiers_pressed(readings[0], target))[0]
            is None,
{
    lemma_poll_events_at(readings, target, was_pressed);
    let ev = poll_events(readings, target, was_pressed);
    assert forall|i: int, j: int|
        0 <= i < j < readings.len() && ev[i] is Some && ev[j] is Some && (forall|k: int|
            i < k < j ==> #[trigger] ev[k] is None) implies #[trigger] ev[i] != #[trigger] ev[j] by {
        if j - 1 > i {
            lemma_quiet_polls_keep_state(readings, target, was_pressed, i, j - 1);
        }
        assert(pressed_before(readings, target, was_pressed, j) == modifiers_pressed(readings[j - 1], target));
    }
    assert forall|j: int|
        0 <= j < readings.len() && #[trigger] ev[j] is Some && (forall|k: int| 0 <= k < j ==> #[trigger] ev[k] is None)
            implies (ev[j] == Some(ShortcutTransition::Pressed) <==> !was_pressed) by {
        if j > 0 {
            lemma_quiet_start_keeps_state(readings, target, was_pressed, j - 1);
        }
    }
    if readings.len() > 0 {
        lemma_poll_events_at(readings, target, modifiers_pressed(readings[0], target));
    }
}

/// The modifier flags a modifier-only hotkey holds down, or an error naming a hotkey that is not
/// one.
pub fn modifier_target(hotkey: &str) -> (r: Result<u64, String>)
    ensures
        match hotkey_modifier_mask(hotkey@) {
            Some(mask) => r == Ok::<u64, String>(mask),
            None => r matches Err(e) && e@ == "Invalid modifier-only hotkey '"@ + hotkey@ + "'"@,
        },
{
    match modifier_mask_for_hotkey(hotkey) {
        Some(mask) => Ok(mask),
        None => {
            let mut e = String::from_str("Invalid modifier-only hotkey '");
            e.append(hotkey);
            e.append("'");
            Err(e)
        },
    }
}

/// How a hotkey is listened to.
#[derive(Debug, Clone, PartialEq)]
pub enum HotkeyRegistration {
    /// Not at all (a blank hotkey).
    Nothing,
    /// By polling the modifier keys.
    ModifierWatcher(String),
    /// As a global shortcut.
    Shortcut(String),
}

/// How a (trimmed) hotkey is listened to.
pub open spec fn registration_kind(hotkey: Seq<char>) -> (int, Seq<char>) {
    if hotkey.len() == 0 {
        (0, seq![])
    } else if is_modifier_only(hotkey) {
        (1, hotkey)
    } else {
        (2, hotkey)
    }
}

/// The kind and hotkey of a registration.
pub open spec fn registration_view(r: HotkeyRegistration) -> (int, Seq<char>) {
    match r {
        HotkeyRegistration::Nothing => (0, seq![]),
        HotkeyRegistration::ModifierWatcher(h) => (1, h@),
        HotkeyRegistration::Shortcut(h) => (2, h@),
    }
}

/// How to listen to a trimmed hotkey.
pub fn registration_for(hotkey: &str) -> (r: HotkeyRegistration)
    ensures
        registration_view(r) == registration_kind(hotkey@),
{
    if hotkey.unicode_len() == 0 {
        HotkeyRegistration::Nothing
    } else if is_modifier_only_hotkey(hotkey) {
        HotkeyRegistration::ModifierWatcher(String::from_str(hotkey))
    } else {
        HotkeyRegistration::Shortcut(String::from_str(hotkey))
    }
}

/// The steps that replace one hotkey with another.
#[derive(Debug, Clone, PartialEq)]
pub struct HotkeyUpdatePlan {
    /// The two hotkeys are the same once trimmed: nothing is to be done.
    pub unchanged: bool,
    /// The global shortcut to unregister first.
    pub unregister: Option<String>,
    /// How to listen to the new hotkey.
    pub register: HotkeyRegistration,
    /// How to listen to the previous hotkey again when registering the new one fails.
    pub restore: HotkeyRegistration,
}

/// The plan for replacing `previous` with `next` (both trimmed first): nothing when they are the
/// same; else stop any modifier watcher, unregister the previous hotkey when it is a non-blank
/// global shortcut, listen to the next one, and on failure listen to the previous one again.
pub fn hotkey_update_plan(previous: &str, next: &str) -> (r: HotkeyUpdatePlan)
    ensures
        r.unchanged == (trim(previous@) == trim(next@)),
        !r.unchanged ==> {
            &&& match r.unregister {
                Some(h) => h@ == trim(previous@) && trim(previous@).len() > 0 && !is_modifier_only(
                    trim(previous@),
                ),
                None => trim(previous@).len() == 0 || is_modifier_only(trim(previous@)),
            }
            &&& registration_view(r.register) == registration_kind(trim(next@))
            &&& registration_view(r.restore) == registration_kind(trim(previous@))
        },
        r.unchanged ==> r.unregister is None && r.register == HotkeyRegistration::Nothing
            && r.restore == HotkeyRegistration::Nothing,
{
    let prev = trim_text(previous);
    let nxt = trim_text(next);
    if text_eq(prev.as_str(), nxt.as_str()) {
        return HotkeyUpdatePlan {
            unchanged: true,
            unregister: None,
            register: HotkeyRegistration::Nothing,
            restore: HotkeyRegistration::Nothing,
        };
    }
    let unregister = if prev.as_str().unicode_len() != 0 && !is_modifier_only_hotkey(prev.as_str()) {
        Some(prev.clone())
    } else {
        None
    };
    HotkeyUpdatePlan {
        unchanged: false,
        unregister,
        register: registration_for(nxt.as_str()),
        restore: registration_for(prev.as_str()),
    }
}

} // verus!
