//! Assembly of the hotkeys that a set of configurations defines.
use vstd::prelude::*;
use crate::config::{Config, ConfigView, configs_view};
use crate::error::{Error, ErrorView};
use crate::keybinding::{
    Hotkey, HotkeyView, KeyBinding, KeyBindingView, binding_of, copy_binding, parse_keybinding,
    same_hotkey,
};
use crate::lines::{LineType, LineView, lines_view, classified_lines, joined_lines,
    load_to_lines, join_lines};
use crate::text::text_lines;

verus! {

/// Reading the first `n` logical lines of a file: the hotkeys found so far and
/// the binding that the last key line gave, or the first error.
pub open spec fn assemble(ls: Seq<LineView>, n: nat, path: Seq<char>) -> Result<
    (Seq<HotkeyView>, Option<KeyBindingView>),
    ErrorView,
>
    decreases n,
{
    if n == 0 {
        Ok((seq![], None))
    } else {
        match assemble(ls, (n - 1) as nat, path) {
            Err(e) => Err(e),
            Ok((hs, current)) => {
                let l = ls[n - 1];
                if l.linetype == LineType::Key {
                    match binding_of(l.content, l.linenumber, path) {
                        Ok(kb) => Ok((hs, Some(kb))),
                        Err(e) => Err(e),
                    }
                } else if l.linetype == LineType::Command {
                    match current {
                        Some(kb) => Ok((hs.push(HotkeyView { keybinding: kb, command: l.content }), current)),
                        None => Ok((hs, current)),
                    }
                } else {
                    Ok((hs, current))
                }
            },
        }
    }
}

/// The hotkeys of the text of the file at `path`: one for each command line,
/// bound to the key line before it; commands before any key line are ignored.
pub open spec fn hotkeys_of(path: Seq<char>, contents: Seq<char>) -> Result<
    Seq<HotkeyView>,
    ErrorView,
> {
    let ls = joined_lines(classified_lines(contents));
    match assemble(ls, ls.len(), path) {
        Ok((hs, _)) => Ok(hs),
        Err(e) => Err(e),
    }
}

/// Whether `hs` holds a hotkey that is the same as `h`.
pub open spec fn has_hotkey(hs: Seq<HotkeyView>, h: HotkeyView) -> bool {
    exists|i: int| 0 <= i < hs.len() && same_hotkey(#[trigger] hs[i], h)
}

/// `acc` with each hotkey of `hs` appended that it does not hold yet, in order.
pub open spec fn add_new_hotkeys(acc: Seq<HotkeyView>, hs: Seq<HotkeyView>) -> Seq<HotkeyView>
    decreases hs.len(),
{
    if hs.len() == 0 {
        acc
    } else {
        let m = add_new_hotkeys(acc, hs.drop_last());
        if has_hotkey(m, hs.last()) {
            m
        } else {
            m.push(hs.last())
        }
    }
}

/// The hotkeys of the first `n` configurations of `cs`, without repeats, or
/// the first error.
pub open spec fn collected(cs: Seq<ConfigView>, n: nat) -> Result<Seq<HotkeyView>, ErrorView>
    decreases n,
{
    if n == 0 {
        Ok(seq![])
    } else {
        match collected(cs, (n - 1) as nat) {
            Err(e) => Err(e),
            Ok(acc) => match hotkeys_of(cs[n - 1].path, cs[n - 1].contents) {
                Err(e) => Err(e),
                Ok(hs) => Ok(add_new_hotkeys(acc, hs)),
            },
        }
    }
}

/// The views of a sequence of hotkeys.
pub open spec fn hotkeys_view(hs: Seq<Hotkey>) -> Seq<HotkeyView> {
    hs.map_values(|h: Hotkey| h@)
}

/// The view of a list of hotkeys, or of its error.
pub open spec fn hotkeys_result_view(r: Result<Vec<Hotkey>, Error>) -> Result<
    Seq<HotkeyView>,
    ErrorView,
> {
    match r {
        Ok(v) => Ok(hotkeys_view(v@)),
        Err(e) => Err(e@),
    }
}

/// No two hotkeys of `hs` are the same.
pub open spec fn distinct_hotkeys(hs: Seq<HotkeyView>) -> bool {
    forall|i: int, j: int| 0 <= i < j < hs.len() ==> !same_hotkey(#[trigger] hs[i], #[trigger] hs[j])
}

/// Once reading the lines of a file has failed, it stays failed.
proof fn lemma_assemble_error_stays(ls: Seq<LineView>, n: nat, m: nat, path: Seq<char>)
    requires
        n <= m,
        assemble(ls, n, path) is Err,
    ensures
        assemble(ls, m, path) == assemble(ls, n, path),
    decreases m - n,
{
    if n < m {
        lemma_assemble_error_stays(ls, n, (m - 1) as nat, path);
    }
}

/// Once collecting has failed, it stays failed.
proof fn lemma_collected_error_stays(cs: Seq<ConfigView>, n: nat, m: nat)
    requires
        n <= m,
        collected(cs, n) is Err,
    ensures
        collected(cs, m) == collected(cs, n),
    decreases m - n,
{
    if n < m {
        lemma_collected_error_stays(cs, n, (m - 1) as nat);
    }
}

/// Adding hotkeys keeps a list free of repeats, and leaves each added hotkey
/// represented in it.
proof fn lemma_add_new_hotkeys(acc: Seq<HotkeyView>, hs: Seq<HotkeyView>)
    requires
        distinct_hotkeys(acc),
    ensures
        distinct_hotkeys(add_new_hotkeys(acc, hs)),
        forall|i: int| 0 <= i < hs.len() ==> has_hotkey(add_new_hotkeys(acc, hs), #[trigger] hs[i]),
        forall|i: int| 0 <= i < acc.len() ==> has_hotkey(add_new_hotkeys(acc, hs), #[trigger] acc[i]),
    decreases hs.len(),
{
    if hs.len() > 0 {
        let pre = hs.drop_last();
        lemma_add_new_hotkeys(acc, pre);
        let m = add_new_hotkeys(acc, pre);
        let h = hs.last();
        if !has_hotkey(m, h) {
            let r = m.push(h);
            assert forall|i: int, j: int| 0 <= i < j < r.len() implies !same_hotkey(
                #[trigger] r[i],
                #[trigger] r[j],
            ) by {
                if j == m.len() {
                    assert(r[i] == m[i]);
                } else {
                    assert(r[i] == m[i] && r[j] == m[j]);
                }
            }
            assert forall|i: int| 0 <= i < hs.len() implies has_hotkey(r, #[trigger] hs[i]) by {
                if i < hs.len() - 1 {
                    assert(pre[i] == hs[i]);
                    let k = choose|k: int| 0 <= k < m.len() && same_hotkey(m[k], pre[i]);
                    assert(r[k] == m[k]);
                } else {
                    assert(r[m.len() as int] == h);
                    assert(same_hotkey(h, h));
                }
            }
            assert forall|i: int| 0 <= i < acc.len() implies has_hotkey(r, #[trigger] acc[i]) by {
                let k = choose|k: int| 0 <= k < m.len() && same_hotkey(m[k], acc[i]);
                assert(r[k] == m[k]);
            }
        } else {
            assert forall|i: int| 0 <= i < hs.len() implies has_hotkey(m, #[trigger] hs[i]) by {
                if i < hs.len() - 1 {
                    assert(pre[i] == hs[i]);
                }
            }
        }
    }
}

/// The hotkeys collected from configurations hold no two that are the same, and
/// each hotkey that any of the configurations defines is among them: a hotkey
/// that two files define is kept once.
pub proof fn lemma_collected_without_repeats(cs: Seq<ConfigView>, n: nat)
    requires
        n <= cs.len(),
        collected(cs, n) is Ok,
    ensures
        distinct_hotkeys(collected(cs, n)->Ok_0),
        forall|k: int, i: int|
            0 <= k < n && hotkeys_of(cs[k].path, cs[k].contents) is Ok && 0 <= i < hotkeys_of(
                cs[k].path,
                cs[k].contents,
            )->Ok_0.len() ==> has_hotkey(
                collected(cs, n)->Ok_0,
                #[trigger] hotkeys_of(cs[k].path, cs[k].contents)->Ok_0[i],
            ),
    decreases n,
{
    if n > 0 {
        lemma_collected_without_repeats(cs, (n - 1) as nat);
        let acc = collected(cs, (n - 1) as nat)->Ok_0;
        let hs = hotkeys_of(cs[n - 1].path, cs[n - 1].contents)->Ok_0;
        lemma_add_new_hotkeys(acc, hs);
        let r = add_new_hotkeys(acc, hs);
        assert forall|k: int, i: int|
            0 <= k < n && hotkeys_of(cs[k].path, cs[k].contents) is Ok && 0 <= i < hotkeys_of(
                cs[k].path,
                cs[k].contents,
            )->Ok_0.len() implies has_hotkey(
            r,
            #[trigger] hotkeys_of(cs[k].path, cs[k].contents)->Ok_0[i],
        ) by {
            if k < n - 1 {
                let h = hotkeys_of(cs[k].path, cs[k].contents)->Ok_0[i];
                let a = choose|a: int| 0 <= a < acc.len() && same_hotkey(acc[a], h);
                assert(has_hotkey(r, acc[a]));
                let b = choose|b: int| 0 <= b < r.len() && same_hotkey(r[b], acc[a]);
                assert(same_hotkey(r[b], h));
            }
        }
    }
}

/// The hotkeys that the text of the file at `path` defines, in order.
pub fn parse_contents(path: String, contents: &str) -> (r: Result<Vec<Hotkey>, Error>)
    requires
        text_lines(contents@).len() <= u32::MAX,
    ensures
        hotkeys_result_view(r) == hotkeys_of(path@, contents@),
{
    let lines = join_lines(load_to_lines(contents));
    let ghost ls = joined_lines(classified_lines(contents@));
    let mut hotkeys: Vec<Hotkey> = Vec::new();
    let mut current: Option<KeyBinding> = None;
    let mut i: usize = 0;
    assert(hotkeys_view(hotkeys@) =~= seq![]);
    while i < lines.len()
        invariant
            ls == joined_lines(classified_lines(contents@)),
            lines_view(lines@) == ls,
            i <= lines@.len(),
            assemble(ls, i as nat, path@) == Ok::<_, ErrorView>(
                (
                    hotkeys_view(hotkeys@),
                    match current {
                        Some(kb) => Some(kb@),
                        None => None,
                    },
                ),
            ),
        decreases lines.len() - i,
    {
        let line = &lines[i];
        assert(ls[i as int] == line@);
        if line.linetype == LineType::Key {
            match parse_keybinding(line.content.as_str(), line.linenumber, path.clone()) {
                Ok(kb) => {
                    current = Some(kb);
                },
                Err(e) => {
                    proof {
                        assert(assemble(ls, (i + 1) as nat, path@) == Err::<
                            (Seq<HotkeyView>, Option<KeyBindingView>),
                            ErrorView,
                        >(e@));
                        assert(ls.len() == lines@.len());
                        lemma_assemble_error_stays(ls, (i + 1) as nat, ls.len(), path@);
                    }
                    return Err(e);
                },
            }
        } else if line.linetype == LineType::Command {
            match &current {
                Some(kb) => {
                    hotkeys.push(Hotkey { keybinding: copy_binding(kb), command: line.content.clone() });
                },
                None => {},
            }
        }
        i = i + 1;
        assert(hotkeys_view(hotkeys@) =~= assemble(ls, i as nat, path@)->Ok_0.0);
    }
    Ok(hotkeys)
}

/// Appends to `acc` each hotkey of `hs` that it does not hold yet, in order.
pub fn add_hotkeys(acc: &mut Vec<Hotkey>, hs: Vec<Hotkey>)
    ensures
        hotkeys_view(final(acc)@) == add_new_hotkeys(hotkeys_view(old(acc)@), hotkeys_view(hs@)),
{
    let ghost a0 = hotkeys_view(acc@);
    let ghost hv = hotkeys_view(hs@);
    let mut hs = hs;
    let total: usize = hs.len();
    let mut k: usize = 0;
    while hs.len() > 0
        invariant
            hv.len() == total,
            k + hs@.len() == total,
            hotkeys_view(hs@) == hv.skip(k as int),
            hotkeys_view(acc@) == add_new_hotkeys(a0, hv.take(k as int)),
        decreases hs.len(),
    {
        let ghost before = hs@;
        let h = hs.remove(0);
        assert(hv.take(k + 1).drop_last() =~= hv.take(k as int));
        assert(h@ == hv[k as int]) by {
            assert(hotkeys_view(before)[0] == hv.skip(k as int)[0]);
        }
        assert forall|j: int| 0 <= j < hs@.len() implies #[trigger] hotkeys_view(hs@)[j] == hv.skip(
            k + 1,
        )[j] by {
            assert(hotkeys_view(before)[j + 1] == hv.skip(k as int)[j + 1]);
        }
        assert(hotkeys_view(hs@) =~= hv.skip(k + 1));
        let mut present = false;
        let mut j: usize = 0;
        while j < acc.len()
            invariant
                j <= acc@.len(),
                present == (exists|l: int| 0 <= l < j && same_hotkey(acc@[l]@, h@)),
            decreases acc.len() - j,
        {
            if acc[j] == h {
                present = true;
            }
            j = j + 1;
        }
        proof {
            let m = hotkeys_view(acc@);
            if present {
                let l = choose|l: int| 0 <= l < j && same_hotkey(acc@[l]@, h@);
                assert(same_hotkey(m[l], h@));
            } else {
                assert forall|l: int| 0 <= l < m.len() implies !same_hotkey(m[l], h@) by {
                    assert(m[l] == acc@[l]@);
                }
            }
        }
        if !present {
            acc.push(h);
        }
        k = k + 1;
        assert(hotkeys_view(acc@) =~= add_new_hotkeys(a0, hv.take(k as int)));
    }
    assert(hv.take(k as int) =~= hv);
}

/// The hotkeys that `configs` define, in order, each once: a hotkey that is the
/// same as an earlier one is left out.
pub fn collect_hotkeys(configs: &Vec<Config>) -> (r: Result<Vec<Hotkey>, Error>)
    requires
        forall|i: int| 0 <= i < configs@.len() ==> text_lines(#[trigger] configs@[i].contents@).len() <= u32::MAX,
    ensures
        hotkeys_result_view(r) == collected(configs_view(configs@), configs@.len()),
{
    let ghost cs = configs_view(configs@);
    let mut hotkeys: Vec<Hotkey> = Vec::new();
    let mut i: usize = 0;
    assert(hotkeys_view(hotkeys@) =~= seq![]);
    while i < configs.len()
        invariant
            cs == configs_view(configs@),
            i <= configs@.len(),
            forall|j: int| 0 <= j < configs@.len() ==> text_lines(#[trigger] configs@[j].contents@).len() <= u32::MAX,
            collected(cs, i as nat) == Ok::<_, ErrorView>(hotkeys_view(hotkeys@)),
        decreases configs.len() - i,
    {
        let config = &configs[i];
        assert(cs[i as int] == config@);
        match parse_contents(config.path.clone(), config.contents.as_str()) {
            Ok(found) => {
                add_hotkeys(&mut hotkeys, found);
            },
            Err(e) => {
                proof {
                    lemma_collected_error_stays(cs, (i + 1) as nat, cs.len());
                }
                return Err(e);
            },
        }
        i = i + 1;
    }
    Ok(hotkeys)
}

} // verus!
