//! Quick commands: named command lines that a key combination or a click
//! sends to the terminal.

use uuid::Uuid;
use vstd::prelude::*;

use vstd::utf8::encode_utf8;
use vstd::utf8::encode_utf8_decode_utf8;

use crate::text::bytes_order;
use crate::text::lemma_lex_transitive;
use crate::text::lex_less;
use crate::text::str_eq;
use crate::text::Order;

verus! {

/// `Uuid::new_v4`, written out: a fresh random identifier. Nothing is
/// promised of it but that it is a string. The random bytes come from the
/// operating system; on a machine that gives none, `uuid` panics. That is a
/// failure of the machine and of no input, so no `requires` can leave it out.
#[verifier::external_body]
fn fresh_id() -> String {
    Uuid::new_v4().to_string()
}

/// A key combination.
#[derive(Clone, Debug)]
pub struct KeyBinding {
    pub ctrl: bool,
    pub alt: bool,
    pub shift: bool,
    /// The key, by name (`"1"`, `"A"`, `"F5"`); empty for no binding.
    pub key: String,
}

/// A key combination as a value.
pub struct KeyBindingView {
    pub ctrl: bool,
    pub alt: bool,
    pub shift: bool,
    pub key: Seq<char>,
}

impl View for KeyBinding {
    type V = KeyBindingView;

    open spec fn view(&self) -> KeyBindingView {
        KeyBindingView { ctrl: self.ctrl, alt: self.alt, shift: self.shift, key: self.key@ }
    }
}

/// How a key combination is shown: the modifiers held, in the order Ctrl,
/// Alt, Shift, and the key, joined by `+`; nothing for no binding.
pub open spec fn spec_display(kb: KeyBindingView) -> Seq<char> {
    if kb.key.len() == 0 {
        Seq::empty()
    } else {
        (if kb.ctrl {
            seq!['C', 't', 'r', 'l', '+']
        } else {
            Seq::empty()
        }) + (if kb.alt {
            seq!['A', 'l', 't', '+']
        } else {
            Seq::empty()
        }) + (if kb.shift {
            seq!['S', 'h', 'i', 'f', 't', '+']
        } else {
            Seq::empty()
        }) + kb.key
    }
}

impl KeyBinding {
    /// Whether this is no binding at all.
    pub fn is_empty(&self) -> (b: bool)
        ensures
            b == (self@.key.len() == 0),
    {
        self.key.as_str().is_empty()
    }

    /// The combination as text, such as `Ctrl+Shift+K`.
    pub fn display(&self) -> (text: String)
        ensures
            text@ == spec_display(self@),
    {
        let mut text = String::new();
        if self.is_empty() {
            return text;
        }
        if self.ctrl {
            text.push('C');
            text.push('t');
            text.push('r');
            text.push('l');
            text.push('+');
        }
        let ghost a = text@;
        if self.alt {
            text.push('A');
            text.push('l');
            text.push('t');
            text.push('+');
        }
        let ghost b = text@;
        if self.shift {
            text.push('S');
            text.push('h');
            text.push('i');
            text.push('f');
            text.push('t');
            text.push('+');
        }
        let ghost c = text@;
        let key = self.key.as_str();
        let n: usize = key.unicode_len();
        let mut i: usize = 0;
        while i < n
            invariant
                n == key@.len(),
                i <= n,
                text@ == c + key@.take(i as int),
            decreases n - i,
        {
            text.push(key.get_char(i));
            i += 1;
            assert(text@ =~= c + key@.take(i as int));
        }
        assert(key@.take(n as int) =~= key@);
        assert(text@ =~= spec_display(self@));
        text
    }

    /// Whether two combinations are the same: the same modifiers and the
    /// same key.
    pub fn same_as(&self, other: &KeyBinding) -> (same: bool)
        ensures
            same == (self@ == other@),
    {
        self.ctrl == other.ctrl && self.alt == other.alt && self.shift == other.shift && str_eq(
            self.key.as_str(),
            other.key.as_str(),
        )
    }
}

impl Default for KeyBinding {
    /// No binding.
    fn default() -> (kb: Self)
        ensures
            !kb.ctrl,
            !kb.alt,
            !kb.shift,
            kb.key@.len() == 0,
    {
        KeyBinding { ctrl: false, alt: false, shift: false, key: String::new() }
    }
}

impl PartialEq for KeyBinding {
    fn eq(&self, other: &KeyBinding) -> (same: bool) {
        self.same_as(other)
    }
}

impl vstd::std_specs::cmp::PartialEqSpecImpl for KeyBinding {
    open spec fn obeys_eq_spec() -> bool {
        true
    }

    open spec fn eq_spec(&self, other: &KeyBinding) -> bool {
        self@ == other@
    }
}

impl Eq for KeyBinding {

}

/// One quick command.
#[derive(Clone, Debug)]
pub struct QuickCommand {
    /// Unique identifier.
    pub id: String,
    /// The name on its button.
    pub name: String,
    /// The text sent to the terminal.
    pub command: String,
    /// Whether Enter follows the text.
    pub auto_execute: bool,
    /// The group under which the command is listed.
    pub tag: String,
    /// The key combination that sends it, if any.
    pub keybinding: KeyBinding,
}

impl QuickCommand {
    /// A command yet to be filled in: a fresh identifier, no name and no
    /// text, sent with Enter, in the group `default`, bound to no key.
    pub fn new_empty() -> (cmd: Self)
        ensures
            cmd.name@.len() == 0,
            cmd.command@.len() == 0,
            cmd.auto_execute,
            cmd.tag@ == seq!['d', 'e', 'f', 'a', 'u', 'l', 't'],
            !cmd.keybinding.ctrl,
            !cmd.keybinding.alt,
            !cmd.keybinding.shift,
            cmd.keybinding.key@.len() == 0,
    {
        let mut tag = String::new();
        tag.push('d');
        tag.push('e');
        tag.push('f');
        tag.push('a');
        tag.push('u');
        tag.push('l');
        tag.push('t');
        assert(tag@ =~= seq!['d', 'e', 'f', 'a', 'u', 'l', 't']);
        QuickCommand {
            id: fresh_id(),
            name: String::new(),
            command: String::new(),
            auto_execute: true,
            tag,
            keybinding: KeyBinding::default(),
        }
    }
}

/// The quick commands of the user, in the order in which they are listed.
#[derive(Clone, Debug)]
pub struct QuickCommandConfig {
    pub commands: Vec<QuickCommand>,
}

/// The indexes of the commands in `commands`, in order, whose tag is `tag`.
pub open spec fn indexes_by_tag(commands: Seq<QuickCommand>, tag: Seq<char>) -> Seq<int>
    decreases commands.len(),
{
    if commands.len() == 0 {
        Seq::empty()
    } else if commands.last().tag@ == tag {
        indexes_by_tag(commands.drop_last(), tag).push(commands.len() - 1)
    } else {
        indexes_by_tag(commands.drop_last(), tag)
    }
}

/// The commands of `commands`, in order, whose identifier is not `id`.
pub open spec fn without_id(commands: Seq<QuickCommand>, id: Seq<char>) -> Seq<QuickCommand>
    decreases commands.len(),
{
    if commands.len() == 0 {
        Seq::empty()
    } else if commands.last().id@ == id {
        without_id(commands.drop_last(), id)
    } else {
        without_id(commands.drop_last(), id).push(commands.last())
    }
}

/// The texts of a list of strings.
pub open spec fn texts(strings: Seq<String>) -> Seq<Seq<char>> {
    strings.map_values(|s: String| s@)
}

/// The texts stand in strictly ascending order of their UTF-8 bytes, which
/// is the order of strings; no text occurs twice in such a list.
pub open spec fn ascending(list: Seq<Seq<char>>) -> bool {
    forall|i: int, j: int|
        0 <= i < j < list.len() ==> lex_less(
            encode_utf8(#[trigger] list[i]),
            encode_utf8(#[trigger] list[j]),
        )
}

/// Some command of `commands` has the tag `tag`.
pub open spec fn has_tag(commands: Seq<QuickCommand>, tag: Seq<char>) -> bool {
    exists|k: int| 0 <= k < commands.len() && (#[trigger] commands[k]).tag@ == tag
}

/// Puts `tag` into the ascending list `out`, unless it is there already.
fn insert_tag(out: &mut Vec<String>, tag: &String)
    requires
        ascending(texts(old(out)@)),
    ensures
        ascending(texts(final(out)@)),
        forall|s: Seq<char>|
            texts(final(out)@).contains(s) <==> (texts(old(out)@).contains(s) || s == tag@),
{
    let ghost before = texts(out@);
    let mut pos: usize = 0;
    let mut found = false;
    let mut passed = false;
    while pos < out.len() && !found && !passed
        invariant
            out@ == old(out)@,
            before == texts(out@),
            pos <= out@.len(),
            forall|i: int|
                0 <= i < pos ==> lex_less(encode_utf8(#[trigger] before[i]), encode_utf8(tag@)),
            found ==> pos < out@.len() && before[pos as int] == tag@,
            passed ==> pos < out@.len() && lex_less(
                encode_utf8(tag@),
                encode_utf8(before[pos as int]),
            ),
            ascending(before),
        decreases
                if found || passed {
                    0
                } else {
                    out@.len() + 1 - pos
                },
    {
        let here = out[pos].as_str().as_bytes();
        assert(here@ == encode_utf8(before[pos as int]));
        match bytes_order(here, tag.as_str().as_bytes()) {
            Order::Before => {
                pos += 1;
            },
            Order::Same => {
                proof {
                    encode_utf8_decode_utf8(before[pos as int]);
                    encode_utf8_decode_utf8(tag@);
                }
                found = true;
            },
            Order::After => {
                passed = true;
            },
        }
    }
    if found {
        assert forall|s: Seq<char>| before.contains(s) <==> (before.contains(s) || s == tag@) by {
            assert(before[pos as int] == tag@);
        }
        return ;
    }
    out.insert(pos, tag.clone());
    proof {
        let after = texts(out@);
        assert(after =~= before.insert(pos as int, tag@));
        assert forall|i: int, j: int| 0 <= i < j < after.len() implies lex_less(
            encode_utf8(#[trigger] after[i]),
            encode_utf8(#[trigger] after[j]),
        ) by {
            if j < pos {
                assert(after[i] == before[i] && after[j] == before[j]);
            } else if j == pos {
                assert(after[i] == before[i]);
            } else if i < pos {
                assert(after[i] == before[i] && after[j] == before[j - 1]);
                lemma_lex_transitive(
                    encode_utf8(before[i]),
                    encode_utf8(tag@),
                    encode_utf8(before[pos as int]),
                );
                if j - 1 > pos {
                    lemma_lex_transitive(
                        encode_utf8(before[i]),
                        encode_utf8(before[pos as int]),
                        encode_utf8(before[j - 1]),
                    );
                }
            } else if i == pos {
                assert(after[j] == before[j - 1]);
                if j - 1 > pos {
                    lemma_lex_transitive(
                        encode_utf8(tag@),
                        encode_utf8(before[pos as int]),
                        encode_utf8(before[j - 1]),
                    );
                }
            } else {
                assert(after[i] == before[i - 1] && after[j] == before[j - 1]);
            }
        }
        assert forall|s: Seq<char>| after.contains(s) <==> (before.contains(s) || s == tag@) by {
            if after.contains(s) {
                let i = choose|i: int| 0 <= i < after.len() && after[i] == s;
                if i < pos {
                    assert(before[i] == s);
                } else if i > pos {
                    assert(before[i - 1] == s);
                }
            }
            if before.contains(s) {
                let i = choose|i: int| 0 <= i < before.len() && before[i] == s;
                if i < pos {
                    assert(after[i] == s);
                } else {
                    assert(after[i + 1] == s);
                }
            }
            if s == tag@ {
                assert(after[pos as int] == s);
            }
        }
    }
}

impl Default for QuickCommandConfig {
    /// No commands.
    fn default() -> (config: Self)
        ensures
            config.commands@.len() == 0,
    {
        QuickCommandConfig { commands: Vec::new() }
    }
}

impl QuickCommandConfig {
    /// The tags of the commands, each once, in ascending order; the empty
    /// tag is left out.
    pub fn tags(&self) -> (tags: Vec<String>)
        ensures
            ascending(texts(tags@)),
            forall|s: Seq<char>|
                texts(tags@).contains(s) <==> (s.len() > 0 && has_tag(self.commands@, s)),
    {
        let mut tags: Vec<String> = Vec::new();
        let mut k: usize = 0;
        while k < self.commands.len()
            invariant
                k <= self.commands@.len(),
                ascending(texts(tags@)),
                forall|s: Seq<char>|
                    texts(tags@).contains(s) <==> (s.len() > 0 && has_tag(
                        self.commands@.take(k as int),
                        s,
                    )),
            decreases self.commands@.len() - k,
        {
            let ghost before = texts(tags@);
            let ghost seen = self.commands@.take(k as int);
            let ghost next = self.commands@.take(k + 1);
            let tag = &self.commands[k].tag;
            if !tag.as_str().is_empty() {
                insert_tag(&mut tags, tag);
            }
            proof {
                assert forall|s: Seq<char>| has_tag(next, s) <==> (has_tag(seen, s) || s
                    == tag@) by {
                    if has_tag(next, s) {
                        let i = choose|i: int| 0 <= i < next.len() && (#[trigger] next[i]).tag@ == s;
                        if i < k {
                            assert(seen[i].tag@ == s);
                        }
                    }
                    if has_tag(seen, s) {
                        let i = choose|i: int| 0 <= i < seen.len() && (#[trigger] seen[i]).tag@ == s;
                        assert(next[i].tag@ == s);
                    }
                    if s == tag@ {
                        assert(next[k as int].tag@ == s);
                    }
                }
            }
            k += 1;
        }
        assert(self.commands@.take(k as int) =~= self.commands@);
        tags
    }

    /// The commands whose tag is `tag`, in the order in which they are listed.
    pub fn commands_by_tag(&self, tag: &str) -> (found: Vec<&QuickCommand>)
        ensures
            found@.len() == indexes_by_tag(self.commands@, tag@).len(),
            forall|i: int|
                0 <= i < found@.len() ==> *(#[trigger] found@[i]) == self.commands@[indexes_by_tag(
                    self.commands@,
                    tag@,
                )[i]],
    {
        let mut found: Vec<&QuickCommand> = Vec::new();
        let mut k: usize = 0;
        assert(self.commands@.take(0) =~= Seq::<QuickCommand>::empty());
        while k < self.commands.len()
            invariant
                k <= self.commands@.len(),
                found@.len() == indexes_by_tag(self.commands@.take(k as int), tag@).len(),
                forall|i: int|
                    0 <= i < found@.len() ==> 0 <= (#[trigger] indexes_by_tag(
                        self.commands@.take(k as int),
                        tag@,
                    )[i]) < k,
                forall|i: int|
                    0 <= i < found@.len() ==> *(#[trigger] found@[i])
                        == self.commands@[indexes_by_tag(self.commands@.take(k as int), tag@)[i]],
            decreases self.commands@.len() - k,
        {
            let ghost before = indexes_by_tag(self.commands@.take(k as int), tag@);
            assert(self.commands@.take(k + 1).drop_last() =~= self.commands@.take(k as int));
            if str_eq(self.commands[k].tag.as_str(), tag) {
                found.push(&self.commands[k]);
            }
            k += 1;
            let ghost after = indexes_by_tag(self.commands@.take(k as int), tag@);
            assert forall|i: int| 0 <= i < found@.len() implies 0 <= (#[trigger] after[i]) < k
                && *found@[i] == self.commands@[after[i]] by {
                if i < before.len() {
                    assert(after[i] == before[i]);
                }
            }
        }
        assert(self.commands@.take(k as int) =~= self.commands@);
        found
    }

    /// Removes every command whose identifier is `id`; the others keep their
    /// order.
    pub fn remove_by_id(&mut self, id: &str)
        ensures
            final(self).commands@ == without_id(old(self).commands@, id@),
    {
        let mut kept: Vec<QuickCommand> = Vec::new();
        let mut rest: Vec<QuickCommand> = Vec::new();
        core::mem::swap(&mut rest, &mut self.commands);
        let ghost all = rest@;
        let n: usize = rest.len();
        let mut k: usize = 0;
        assert(all.take(0) =~= Seq::<QuickCommand>::empty());
        while k < n
            invariant
                k <= n,
                n == all.len(),
                rest@.len() == n - k,
                rest@ == all.skip(k as int),
                kept@ == without_id(all.take(k as int), id@),
            decreases n - k,
        {
            assert(all.take(k + 1).drop_last() =~= all.take(k as int));
            assert(all.take(k + 1).last() == all[k as int]);
            let cmd = rest.remove(0);
            assert(rest@ =~= all.skip(k + 1));
            if !str_eq(cmd.id.as_str(), id) {
                kept.push(cmd);
            }
            k += 1;
        }
        assert(all.take(k as int) =~= all);
        self.commands = kept;
    }

    /// The first command bound to the key combination `kb`; none for no
    /// binding.
    pub fn find_by_keybinding(&self, kb: &KeyBinding) -> (found: Option<&QuickCommand>)
        ensures
            match found {
                Some(cmd) => kb@.key.len() > 0 && exists|k: int|
                    {
                        &&& 0 <= k < self.commands@.len()
                        &&& *cmd == #[trigger] self.commands@[k]
                        &&& self.commands@[k].keybinding@ == kb@
                        &&& forall|j: int|
                            0 <= j < k ==> (#[trigger] self.commands@[j]).keybinding@ != kb@
                    },
                None => kb@.key.len() == 0 || forall|k: int|
                    0 <= k < self.commands@.len() ==> (#[trigger] self.commands@[k]).keybinding@
                        != kb@,
            },
    {
        if kb.is_empty() {
            return None;
        }
        let mut k: usize = 0;
        while k < self.commands.len()
            invariant
                k <= self.commands@.len(),
                kb@.key.len() > 0,
                forall|j: int| 0 <= j < k ==> (#[trigger] self.commands@[j]).keybinding@ != kb@,
            decreases self.commands@.len() - k,
        {
            if self.commands[k].keybinding.same_as(kb) {
                return Some(&self.commands[k]);
            }
            k += 1;
        }
        None
    }
}

} // verus!
