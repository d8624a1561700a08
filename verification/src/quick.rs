//! The quick setters: typing a context or project tag for the target tasks.

use vstd::prelude::*;
use crate::app::{App, AppMode};
use crate::edits::{quick_char, quick_token, token_edits};
use crate::modes::quick_targets_ok;
use crate::task::tasks_view;
use crate::keys::{KeyCode, KeyEvent};
use crate::order::{lower_then_exact_le, sort_strings_lower_then_exact, sorted_by_lte};
use crate::state::{
    AutocompleteState, all_contexts, all_projects, deduped, get_existing_contexts, get_existing_projects,
    rank_matches, ranked,
};
use crate::text::{eq_ignore_ascii_case, eq_ignore_case, push_char, strs, trim_seq};

verus! {

/// `s` without each element that equals, ASCII case ignored, the last element
/// kept before it (`Vec::dedup_by`).
pub open spec fn dedup_ci(s: Seq<Seq<char>>) -> Seq<Seq<char>>
    decreases s.len(),
{
    if s.len() == 0 {
        Seq::empty()
    } else {
        let r = dedup_ci(s.drop_last());
        if r.len() > 0 && eq_ignore_ascii_case(s.last(), r.last()) {
            r
        } else {
            r.push(s.last())
        }
    }
}

/// The tags a quick setter starts from, with the typed prefix added when it is
/// a valid tag that no tag matches (ASCII case ignored).
pub open spec fn setter_pool(tags: Seq<Seq<char>>, prefix: Seq<char>) -> Seq<Seq<char>> {
    if quick_token(prefix) && !(exists|i: int| 0 <= i < tags.len() && eq_ignore_ascii_case(#[trigger] tags[i], prefix)) {
        tags.push(prefix)
    } else {
        tags
    }
}

/// The tags in use for a trigger: contexts for `@`, projects for `+`, none otherwise.
pub open spec fn trigger_tags(a: App, trigger: char) -> Seq<Seq<char>> {
    if trigger == '@' {
        deduped(all_contexts(a.tasks@))
    } else if trigger == '+' {
        deduped(all_projects(a.tasks@))
    } else {
        Seq::empty()
    }
}

/// `r` is the quick setter's list for `prefix`: the pool sorted by lower-cased
/// form then exactly, case-insensitive repeats dropped, ranked against the
/// prefix.
pub open spec fn setter_candidates(pool: Seq<Seq<char>>, prefix: Seq<char>, r: Seq<Seq<char>>) -> bool {
    exists|s: Seq<Seq<char>>| #[trigger] sorted_by_lte(s) && s.to_multiset() == pool.to_multiset() && r == ranked(
        prefix,
        dedup_ci(s),
    )
}

fn dedup_ci_exec(v: Vec<String>) -> (r: Vec<String>)
    ensures
        strs(r) == dedup_ci(strs(v)),
{
    let mut out: Vec<String> = Vec::new();
    let mut i: usize = 0;
    assert(strs(v).take(0) =~= Seq::<Seq<char>>::empty());
    while i < v.len()
        invariant
            i <= v@.len(),
            strs(out) == dedup_ci(strs(v).take(i as int)),
        decreases v.len() - i,
    {
        proof {
            assert(strs(v).take(i + 1).drop_last() =~= strs(v).take(i as int));
            assert(strs(v).take(i + 1).last() == v@[i as int]@);
        }
        let skip = out.len() > 0 && eq_ignore_case(v[i].as_str(), out[out.len() - 1].as_str());
        if !skip {
            let ghost before = strs(out);
            out.push(v[i].clone());
            assert(strs(out) =~= before.push(v@[i as int]@));
        }
        i += 1;
    }
    assert(strs(v).take(v@.len() as int) =~= strs(v));
    out
}

impl App {
    /// The candidates of the quick setter for `trigger` after typing `prefix`.
    pub fn quick_setter_candidates(&self, trigger: char, prefix: &str) -> (r: Vec<String>)
        ensures
            setter_candidates(setter_pool(trigger_tags(*self, trigger), prefix@), prefix@, strs(r)),
    {
        let mut all: Vec<String> = if trigger == '@' {
            get_existing_contexts(&self.tasks)
        } else if trigger == '+' {
            get_existing_projects(&self.tasks)
        } else {
            Vec::new()
        };
        let ghost tags = strs(all);
        if App::is_valid_quick_setter_token(prefix) {
            let mut found = false;
            let mut i: usize = 0;
            while i < all.len()
                invariant
                    i <= all@.len(),
                    strs(all) == tags,
                    found == exists|k: int| 0 <= k < i && eq_ignore_ascii_case(#[trigger] tags[k], prefix@),
                decreases all.len() - i,
            {
                let e = eq_ignore_case(all[i].as_str(), prefix);
                if e {
                    found = true;
                }
                proof {
                    assert(tags[i as int] == all@[i as int]@);
                    if e {
                        assert(eq_ignore_ascii_case(tags[i as int], prefix@));
                    }
                    assert((exists|k: int| 0 <= k < i + 1 && eq_ignore_ascii_case(#[trigger] tags[k], prefix@))
                        == ((exists|k: int| 0 <= k < i && eq_ignore_ascii_case(#[trigger] tags[k], prefix@)) || eq_ignore_ascii_case(tags[i as int], prefix@))) by {
                        if exists|k: int| 0 <= k < i + 1 && eq_ignore_ascii_case(#[trigger] tags[k], prefix@) {
                            let k = choose|k: int| 0 <= k < i + 1 && eq_ignore_ascii_case(#[trigger] tags[k], prefix@);
                            if k < i {
                                assert(exists|k: int| 0 <= k < i && eq_ignore_ascii_case(#[trigger] tags[k], prefix@));
                            }
                        }
                    }
                }
                i += 1;
            }
            if !found {
                all.push(String::from_str(prefix));
                assert(strs(all) =~= tags.push(prefix@));
            }
        }
        let ghost pool = strs(all);
        assert(pool == setter_pool(trigger_tags(*self, trigger), prefix@));
        let sorted = sort_strings_lower_then_exact(all);
        let ghost s = strs(sorted);
        let d = dedup_ci_exec(sorted);
        let r = rank_matches(prefix, d);
        assert(sorted_by_lte(s) && s.to_multiset() == pool.to_multiset() && strs(r) == ranked(prefix@, dedup_ci(s)));
        r
    }
}

/// What a key in the quick setter asks of the caller.
pub enum QuickOutcome {
    Nothing,
    /// Apply these new task lines (normalised), save and rebuild.
    Apply(Vec<(usize, String)>),
    /// The setter closed; handle the key as in Normal mode.
    Redispatch,
}

/// The tag Tab or Enter applies: the highlighted suggestion, else the typed
/// prefix when it is a valid tag.
pub open spec fn quick_choice(a: Option<AutocompleteState>) -> Option<Seq<char>> {
    match a {
        Some(p) => if p.selected < p.items@.len() {
            Some(p.items@[p.selected as int]@)
        } else if quick_token(p.prefix@) {
            Some(p.prefix@)
        } else {
            None
        },
        None => None,
    }
}

/// `b` is `a` after the quick setter of `trigger` applied `tok` to `targets`:
/// the new lines (asked of the caller when there are some) are those of
/// `token_edits`; a valid tag clears the selection; an undo snapshot and an
/// `added` report when lines change, a report that the tag is already
/// present otherwise; the setter closes.
pub open spec fn quick_applied(a: App, b: App, trigger: char, tok: Seq<char>, targets: Seq<usize>, r: QuickOutcome) -> bool {
    let t = trim_seq(tok);
    let edits: Seq<(usize, String)> = match r {
        QuickOutcome::Apply(e) => e@,
        _ => Seq::empty(),
    };
    &&& (r is Apply || r is Nothing)
    &&& (r is Apply ==> edits.len() > 0)
    &&& token_edits(a.tasks@, trigger, t, targets, edits)
    &&& b == (App {
        selected_tasks: b.selected_tasks,
        selection_anchor: b.selection_anchor,
        disjoint_select: b.disjoint_select,
        undo_entry: b.undo_entry,
        runtime_warnings: b.runtime_warnings,
        autocomplete: None,
        mode: AppMode::Normal,
        ..a
    })
    &&& quick_token(t) ==> b.selected_tasks@ == Set::<usize>::empty() && b.selection_anchor is None
        && !b.disjoint_select
    &&& !quick_token(t) ==> b.selected_tasks == a.selected_tasks && b.selection_anchor == a.selection_anchor
        && b.disjoint_select == a.disjoint_select
    &&& edits.len() > 0 ==> (b.undo_entry matches Some(e) && tasks_view(e.tasks@) == tasks_view(a.tasks@))
        && strs(b.runtime_warnings) == strs(a.runtime_warnings).push("added "@ + seq![trigger] + t)
    &&& edits.len() == 0 ==> b.undo_entry == a.undo_entry && strs(b.runtime_warnings) == strs(
        a.runtime_warnings,
    ).push(seq![trigger] + tok + " already present on target task(s)"@)
}

impl App {
    /// Reports that the tag is on every target already.
    fn report_present(&mut self, trigger: char, token: &str)
        ensures
            *final(self) == (App { runtime_warnings: final(self).runtime_warnings, ..*old(self) }),
            strs(final(self).runtime_warnings) == strs(old(self).runtime_warnings).push(
                seq![trigger] + token@ + " already present on target task(s)"@,
            ),
    {
        let mut msg = String::new();
        push_char(&mut msg, trigger);
        crate::text::push_all(&mut msg, token);
        crate::text::push_all(&mut msg, " already present on target task(s)");
        proof {
            reveal_strlit(" already present on target task(s)");
        }
        assert(msg@ =~= seq![trigger] + token@ + " already present on target task(s)"@);
        let ghost before = strs(self.runtime_warnings);
        self.runtime_warnings.push(msg);
        assert(strs(self.runtime_warnings) =~= before.push(
            seq![trigger] + token@ + " already present on target task(s)"@,
        ));
    }

    /// Applies `token` with the quick setter of `trigger` to its targets and
    /// closes the setter.
    fn apply_chosen(&mut self, trigger: char, token: &str) -> (r: QuickOutcome)
        requires
            old(self).wf(),
        ensures
            final(self).wf(),
            final(self).tasks == old(self).tasks,
            final(self).panes == old(self).panes,
            exists|ts: Seq<usize>|
                #[trigger] quick_targets_ok(*old(self), ts) && quick_applied(*old(self), *final(self), trigger, token@, ts, r),
    {
        let ghost start = *old(self);
        let targets = self.quick_setter_targets();
        let ghost ts = targets@;
        assert(quick_targets_ok(start, ts));
        let edits = self.apply_token_to_tasks(trigger, token, targets);
        let mut out = QuickOutcome::Nothing;
        if edits.len() == 0 {
            self.report_present(trigger, token);
        } else {
            out = QuickOutcome::Apply(edits);
        }
        self.autocomplete = None;
        self.mode = AppMode::Normal;
        assert(quick_applied(start, *self, trigger, token@, ts, out));
        out
    }

    /// Tab or Enter in the quick setter: applies the chosen tag to the
    /// setter's targets and closes it.
    fn quick_apply_choice(&mut self, trigger: char) -> (r: QuickOutcome)
        requires
            old(self).wf(),
        ensures
            final(self).wf(),
            final(self).tasks == old(self).tasks,
            final(self).panes == old(self).panes,
            match quick_choice(old(self).autocomplete) {
                None => r is Nothing && *final(self) == (App {
                    autocomplete: None,
                    mode: AppMode::Normal,
                    ..*old(self)
                }),
                Some(tok) => exists|ts: Seq<usize>|
                    #[trigger] quick_targets_ok(*old(self), ts) && quick_applied(
                        *old(self),
                        *final(self),
                        trigger,
                        tok,
                        ts,
                        r,
                    ),
            },
    {
        let ghost start = *old(self);
        let mut taken: Option<AutocompleteState> = None;
        std::mem::swap(&mut taken, &mut self.autocomplete);
        let chosen: Option<String> = match &taken {
            Some(a) => if a.selected < a.items.len() {
                Some(a.items[a.selected].clone())
            } else if App::is_valid_quick_setter_token(a.prefix.as_str()) {
                Some(a.prefix.clone())
            } else {
                None
            },
            None => None,
        };
        match chosen {
            Some(token) => {
                let ghost mid = *self;
                assert(mid == (App { autocomplete: None, ..start }));
                let out = self.apply_chosen(trigger, token.as_str());
                proof {
                    let ts = choose|ts: Seq<usize>|
                        #[trigger] quick_targets_ok(mid, ts) && quick_applied(mid, *self, trigger, token@, ts, out);
                    assert(quick_targets_ok(start, ts));
                    assert(quick_applied(start, *self, trigger, token@, ts, out));
                }
                out
            },
            None => {
                self.mode = AppMode::Normal;
                QuickOutcome::Nothing
            },
        }
    }

    /// Keys of the quick setter for the trigger of the mode: Esc closes it;
    /// Down/Up move the highlight; Backspace and tag characters edit the
    /// prefix and refresh the candidates; Tab/Enter apply the highlighted tag
    /// (else the prefix, when it is a valid tag) to the target tasks and close
    /// it; any other key closes it and is handled as in Normal mode.
    pub fn handle_quick_setter_key(&mut self, key: &KeyEvent) -> (r: QuickOutcome)
        requires
            old(self).wf(),
        ensures
            final(self).wf(),
            final(self).tasks == old(self).tasks,
            final(self).panes == old(self).panes,
            !(old(self).mode is QuickSetter) ==> r is Nothing && *final(self) == *old(self),
            old(self).mode matches AppMode::QuickSetter(trigger) ==> {
                if key.code == KeyCode::Esc {
                    r is Nothing && *final(self) == (App { autocomplete: None, mode: AppMode::Normal, ..*old(self) })
                } else if key.code == KeyCode::Down || key.code == KeyCode::Up {
                    r is Nothing && *final(self) == (App { autocomplete: final(self).autocomplete, ..*old(self) })
                        && match old(self).autocomplete {
                        Some(a) => final(self).autocomplete matches Some(b) && b == (AutocompleteState {
                            focused: true,
                            selected: b.selected,
                            ..a
                        }) && b.selected == (if key.code == KeyCode::Down {
                            if a.selected + 1 < a.items@.len() {
                                a.selected + 1
                            } else if a.items@.len() > 0 {
                                a.items@.len() - 1
                            } else {
                                0
                            }
                        } else if a.selected > 0 {
                            a.selected - 1
                        } else {
                            0
                        }),
                        None => final(self).autocomplete is None,
                    }
                } else if key.code == KeyCode::Backspace || (key.code matches KeyCode::Char(c) && quick_char(c)) {
                    r is Nothing && *final(self) == (App { autocomplete: final(self).autocomplete, ..*old(self) })
                        && match old(self).autocomplete {
                        Some(a) => {
                            let p = if key.code == KeyCode::Backspace {
                                if a.prefix@.len() > 0 {
                                    a.prefix@.drop_last()
                                } else {
                                    a.prefix@
                                }
                            } else {
                                a.prefix@.push(key.code->Char_0)
                            };
                            final(self).autocomplete matches Some(b) && b == (AutocompleteState {
                                prefix: b.prefix,
                                items: b.items,
                                selected: 0,
                                focused: false,
                                ..a
                            }) && b.prefix@ == p && setter_candidates(
                                setter_pool(trigger_tags(*old(self), trigger), p),
                                p,
                                strs(b.items),
                            )
                        },
                        None => final(self).autocomplete is None,
                    }
                } else if key.code == KeyCode::Tab || key.code == KeyCode::Enter {
                    match quick_choice(old(self).autocomplete) {
                        None => r is Nothing && *final(self) == (App {
                            autocomplete: None,
                            mode: AppMode::Normal,
                            ..*old(self)
                        }),
                        Some(tok) => exists|ts: Seq<usize>|
                            #[trigger] quick_targets_ok(*old(self), ts) && quick_applied(
                                *old(self),
                                *final(self),
                                trigger,
                                tok,
                                ts,
                                r,
                            ),
                    }
                } else {
                    r is Redispatch && *final(self) == (App { autocomplete: None, mode: AppMode::Normal, ..*old(self) })
                }
            },
    {
        let trigger = match self.mode {
            AppMode::QuickSetter(t) => t,
            _ => {
                return QuickOutcome::Nothing;
            },
        };
        if key.code == KeyCode::Esc {
            self.autocomplete = None;
            self.mode = AppMode::Normal;
            return QuickOutcome::Nothing;
        }
        if key.code == KeyCode::Tab || key.code == KeyCode::Enter {
            return self.quick_apply_choice(trigger);
        }
        let edits_prefix = key.code == KeyCode::Backspace || match key.code {
            KeyCode::Char(c) => App::is_valid_quick_setter_char(c),
            _ => false,
        };
        if !(key.code == KeyCode::Down || key.code == KeyCode::Up || edits_prefix) {
            self.autocomplete = None;
            self.mode = AppMode::Normal;
            return QuickOutcome::Redispatch;
        }
        let mut taken: Option<AutocompleteState> = None;
        std::mem::swap(&mut taken, &mut self.autocomplete);
        match taken {
            Some(mut a) => {
                if key.code == KeyCode::Down {
                    a.focused = true;
                    let last = if a.items.len() > 0 {
                        a.items.len() - 1
                    } else {
                        0
                    };
                    a.selected = if a.selected < last {
                        a.selected + 1
                    } else {
                        last
                    };
                } else if key.code == KeyCode::Up {
                    a.focused = true;
                    a.selected = if a.selected > 0 {
                        a.selected - 1
                    } else {
                        0
                    };
                } else {
                    let p = if key.code == KeyCode::Backspace {
                        crate::modes::drop_last_char(&a.prefix)
                    } else {
                        let mut q = a.prefix.clone();
                        match key.code {
                            KeyCode::Char(c) => push_char(&mut q, c),
                            _ => {},
                        }
                        q
                    };
                    let items = self.quick_setter_candidates(trigger, p.as_str());
                    a.prefix = p;
                    a.items = items;
                    a.selected = 0;
                    a.focused = false;
                }
                self.autocomplete = Some(a);
            },
            None => {},
        }
        QuickOutcome::Nothing
    }
}

} // verus!
