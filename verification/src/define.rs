//! The preset definition panel: editing the active filter and the numbered
//! filter presets, and saving them into the configuration.

use vstd::prelude::*;
use crate::app::{App, AppMode, FilterDefiningState, defined_filters};
use crate::config::TuiPreset;
use crate::filtering::pane_filter_set;
use crate::keys::{KeyCode, KeyEvent};
use crate::order::{names_of, sort_by_name, sorted_by_le};
use crate::state::clone_strings;
use crate::text::{strs, trim, trim_seq};

verus! {

/// The named filters as plain values.
pub open spec fn filters_view(f: Seq<(String, TuiPreset)>) -> Seq<(Seq<char>, Option<Seq<char>>)> {
    f.map_values(
        |e: (String, TuiPreset)|
            (e.0@, match e.1.filter {
                Some(x) => Some(x@),
                None => None,
            }),
    )
}

/// The named filters with slot `name` set to `text` (trimmed already): every
/// entry of that name dropped, then the slot added unless the text is empty.
pub open spec fn with_slot(v: Seq<(Seq<char>, Option<Seq<char>>)>, name: Seq<char>, text: Seq<char>) -> Seq<
    (Seq<char>, Option<Seq<char>>),
> {
    let kept = v.filter(|e: (Seq<char>, Option<Seq<char>>)| e.0 != name);
    if text.len() == 0 {
        kept
    } else {
        kept.push((name, Some(text)))
    }
}

/// The named filters with every slot of the panel set from its row.
pub open spec fn with_slots(
    v: Seq<(Seq<char>, Option<Seq<char>>)>,
    names: Seq<Seq<char>>,
    texts: Seq<Seq<char>>,
) -> Seq<(Seq<char>, Option<Seq<char>>)>
    decreases names.len(),
{
    if names.len() == 0 {
        v
    } else {
        with_slot(
            with_slots(v, names.drop_last(), texts.take(names.len() - 1)),
            names.last(),
            trim_seq(texts[names.len() - 1]),
        )
    }
}

/// What a key in the definition panel asks of the caller.
pub enum DefineOutcome {
    Nothing,
    /// Presets were written to the configuration: save it and rebuild.
    Saved,
    /// Give the key to the editor of row 0, then report with `defining_active_edited`.
    EditActive,
    /// Give the key to the editor of preset row `k`, then report with `defining_preset_edited`.
    EditPreset(usize),
}

fn set_slot(f: &mut Vec<(String, TuiPreset)>, name: &String, text: &String)
    ensures
        filters_view(final(f)@) == with_slot(filters_view(old(f)@), name@, text@),
{
    let ghost v = filters_view(f@);
    let ghost pn = |e: (Seq<char>, Option<Seq<char>>)| e.0 != name@;
    let mut kept: Vec<(String, TuiPreset)> = Vec::new();
    let mut i: usize = 0;
    assert(filters_view(kept@) =~= v.take(0).filter(pn)) by {
        reveal_with_fuel(Seq::filter, 1);
    }
    while i < f.len()
        invariant
            i <= f@.len(),
            v == filters_view(f@),
            pn == (|e: (Seq<char>, Option<Seq<char>>)| e.0 != name@),
            filters_view(kept@) == v.take(i as int).filter(pn),
        decreases f.len() - i,
    {
        let keep = !(f[i].0 == *name);
        let ghost before = filters_view(kept@);
        if keep {
            let e = (f[i].0.clone(), TuiPreset {
                filter: match &f[i].1.filter {
                    Some(x) => Some(x.clone()),
                    None => None,
                },
            });
            kept.push(e);
            assert(filters_view(kept@) =~= before.push(v[i as int]));
        }
        proof {
            reveal_with_fuel(Seq::filter, 1);
            assert(v.take(i + 1).drop_last() =~= v.take(i as int));
            assert(v.take(i + 1).last() == v[i as int]);
            assert(keep == pn(v[i as int]));
        }
        i += 1;
    }
    assert(v.take(f@.len() as int) =~= v);
    if !text.as_str().is_empty() {
        let ghost before = filters_view(kept@);
        kept.push((name.clone(), TuiPreset { filter: Some(text.clone()) }));
        assert(filters_view(kept@) =~= before.push((name@, Some(text@))));
    }
    *f = kept;
}

impl App {
    /// Keys of the definition panel: Esc closes it without saving; Enter
    /// writes every slot into the configuration (a blank slot removes that
    /// preset), rebuilds the preset list, applies the selected row's text
    /// (trimmed) to the active pane and closes; Up/Down move between rows;
    /// other keys edit the selected row. Without a panel, returns to Normal.
    #[verifier::rlimit(50)]
    pub fn handle_filter_defining_key(&mut self, key: &KeyEvent) -> (r: DefineOutcome)
        requires
            old(self).wf(),
            old(self).filter_defining_state matches Some(s) ==> s.preset_texts@.len() >= s.preset_names@.len(),
        ensures
            final(self).wf(),
            final(self).tasks == old(self).tasks,
            old(self).filter_defining_state is None ==> r is Nothing && *final(self) == (App {
                mode: AppMode::Normal,
                ..*old(self)
            }),
            old(self).filter_defining_state matches Some(s) ==> {
                let row = s.selected_row;
                if key.code == KeyCode::Esc {
                    r is Nothing && *final(self) == (App {
                        filter_defining_state: None,
                        mode: AppMode::Normal,
                        ..*old(self)
                    })
                } else if key.code == KeyCode::Enter {
                    let q = if row == 0 {
                        trim_seq(s.active_text@)
                    } else if row - 1 < s.preset_texts@.len() {
                        trim_seq(s.preset_texts@[row - 1]@)
                    } else {
                        Seq::<char>::empty()
                    };
                    let nf = with_slots(
                        filters_view(old(self).config.presets.filter@),
                        strs(s.preset_names),
                        strs(s.preset_texts),
                    );
                    &&& r is Saved
                    &&& filters_view(final(self).config.presets.filter@) == nf
                    &&& final(self).config == (crate::config::TuiConfig {
                        presets: crate::config::PresetsSection {
                            filter: final(self).config.presets.filter,
                            ..old(self).config.presets
                        },
                        ..old(self).config
                    })
                    &&& final(self).presets@.to_multiset() == defined_filters(final(self).config.presets.filter@).to_multiset()
                    &&& sorted_by_le(names_of(final(self).presets@))
                    &&& pane_filter_set(*old(self), *final(self), q)
                    &&& *final(self) == (App {
                        config: final(self).config,
                        presets: final(self).presets,
                        panes: final(self).panes,
                        mode: AppMode::Normal,
                        toggled_filter_query: None,
                        filter_defining_state: None,
                        ..*old(self)
                    })
                } else if key.code == KeyCode::Up || key.code == KeyCode::Down {
                    let nrow = if key.code == KeyCode::Up {
                        if row > 0 {
                            row - 1
                        } else {
                            row as int
                        }
                    } else if row < s.preset_texts@.len() {
                        row + 1
                    } else {
                        row as int
                    };
                    &&& r is Nothing
                    &&& *final(self) == (App {
                        filter_defining_state: Some(FilterDefiningState { selected_row: nrow as usize, ..s }),
                        ..*old(self)
                    })
                } else if row == 0 {
                    r is EditActive && *final(self) == *old(self)
                } else if row - 1 < s.preset_texts@.len() {
                    r == DefineOutcome::EditPreset((row - 1) as usize) && *final(self) == *old(self)
                } else {
                    r is Nothing && *final(self) == *old(self)
                }
            },
    {
        let mut taken: Option<FilterDefiningState> = None;
        std::mem::swap(&mut taken, &mut self.filter_defining_state);
        let mut s = match taken {
            Some(s) => s,
            None => {
                self.mode = AppMode::Normal;
                return DefineOutcome::Nothing;
            },
        };
        if key.code == KeyCode::Esc {
            self.mode = AppMode::Normal;
            return DefineOutcome::Nothing;
        }
        if key.code == KeyCode::Enter {
            self.save_definitions(s);
            return DefineOutcome::Saved;
        }
        if key.code == KeyCode::Up {
            if s.selected_row > 0 {
                s.selected_row = s.selected_row - 1;
            }
            self.filter_defining_state = Some(s);
            return DefineOutcome::Nothing;
        }
        if key.code == KeyCode::Down {
            if s.selected_row < s.preset_texts.len() {
                s.selected_row = s.selected_row + 1;
            }
            self.filter_defining_state = Some(s);
            return DefineOutcome::Nothing;
        }
        let row = s.selected_row;
        let n = s.preset_texts.len();
        self.filter_defining_state = Some(s);
        if row == 0 {
            DefineOutcome::EditActive
        } else if row - 1 < n {
            DefineOutcome::EditPreset(row - 1)
        } else {
            DefineOutcome::Nothing
        }
    }

    fn save_definitions(&mut self, s: FilterDefiningState)
        requires
            old(self).wf(),
            old(self).filter_defining_state is None,
            s.preset_texts@.len() >= s.preset_names@.len(),
        ensures
            final(self).wf(),
            final(self).tasks == old(self).tasks,
            ({
                let row = s.selected_row;
                let q = if row == 0 {
                    trim_seq(s.active_text@)
                } else if row - 1 < s.preset_texts@.len() {
                    trim_seq(s.preset_texts@[row - 1]@)
                } else {
                    Seq::<char>::empty()
                };
                let nf = with_slots(
                    filters_view(old(self).config.presets.filter@),
                    strs(s.preset_names),
                    strs(s.preset_texts),
                );
                &&& filters_view(final(self).config.presets.filter@) == nf
                &&& final(self).config == (crate::config::TuiConfig {
                    presets: crate::config::PresetsSection {
                        filter: final(self).config.presets.filter,
                        ..old(self).config.presets
                    },
                    ..old(self).config
                })
                &&& final(self).presets@.to_multiset() == defined_filters(final(self).config.presets.filter@).to_multiset()
                &&& sorted_by_le(names_of(final(self).presets@))
                &&& pane_filter_set(*old(self), *final(self), q)
                &&& *final(self) == (App {
                    config: final(self).config,
                    presets: final(self).presets,
                    panes: final(self).panes,
                    mode: AppMode::Normal,
                    toggled_filter_query: None,
                    ..*old(self)
                })
            }),
    {
            let row = s.selected_row;
            let q = if row == 0 {
                trim(s.active_text.as_str())
            } else if row - 1 < s.preset_texts.len() {
                trim(s.preset_texts[row - 1].as_str())
            } else {
                String::new()
            };
            let ghost v0 = filters_view(self.config.presets.filter@);
            let ghost pre = *self;
            let mut i: usize = 0;
            assert(strs(s.preset_names).take(0) =~= Seq::<Seq<char>>::empty());
            while i < s.preset_names.len()
                invariant
                    i <= s.preset_names@.len(),
                    s.preset_texts@.len() >= s.preset_names@.len(),
                    filters_view(self.config.presets.filter@) == with_slots(
                        v0,
                        strs(s.preset_names).take(i as int),
                        strs(s.preset_texts).take(i as int),
                    ),
                    self.config == (crate::config::TuiConfig {
                        presets: crate::config::PresetsSection {
                            filter: self.config.presets.filter,
                            ..old(self).config.presets
                        },
                        ..old(self).config
                    }),
                    *self == (App { config: self.config, ..pre }),
                    pre.filter_defining_state is None,
                    pre.panes == old(self).panes,
                    pre.active_pane == old(self).active_pane,
                    pre.tasks == old(self).tasks,
                decreases s.preset_names.len() - i,
            {
                let t = trim(s.preset_texts[i].as_str());
                set_slot(&mut self.config.presets.filter, &s.preset_names[i], &t);
                proof {
                    let ns = strs(s.preset_names).take(i + 1);
                    let ts = strs(s.preset_texts).take(i + 1);
                    assert(ns.drop_last() =~= strs(s.preset_names).take(i as int));
                    assert(ts.take(ns.len() - 1) =~= strs(s.preset_texts).take(i as int));
                    assert(ns.last() == s.preset_names@[i as int]@);
                    assert(ts[ns.len() - 1] == s.preset_texts@[i as int]@);
                }
                i += 1;
            }
            proof {
                assert(strs(s.preset_names).take(s.preset_names@.len() as int) =~= strs(s.preset_names));
                let n = s.preset_names@.len() as int;
                assert(strs(s.preset_texts).take(n) =~= strs(s.preset_texts).take(n));
                lemma_with_slots_prefix(v0, strs(s.preset_names), strs(s.preset_texts));
            }
            let mut named: Vec<(String, String)> = Vec::new();
            let mut j: usize = 0;
            let f = &self.config.presets.filter;
            while j < f.len()
                invariant
                    j <= f@.len(),
                    named@ == defined_filters(f@.take(j as int)),
                decreases f.len() - j,
            {
                proof {
                    let t = f@.take(j + 1);
                    assert(t.drop_last() =~= f@.take(j as int));
                    assert(t.last() == f@[j as int]);
                }
                match &f[j].1.filter {
                    Some(x) => {
                        named.push((f[j].0.clone(), x.clone()));
                    },
                    None => {},
                }
                j += 1;
            }
            assert(f@.take(f@.len() as int) =~= f@);
            self.presets = sort_by_name(named);
            self.mode = AppMode::Normal;
            self.set_active_filter(q);
            self.toggled_filter_query = None;
    }

    /// Row 0's editor changed: its text is the live filter of the active pane
    /// (trimmed). The caller rebuilds.
    pub fn defining_active_edited(&mut self, text: &str)
        requires
            old(self).wf(),
        ensures
            final(self).wf(),
            old(self).filter_defining_state is None ==> *final(self) == *old(self),
            old(self).filter_defining_state matches Some(s) ==> {
                &&& final(self).filter_defining_state matches Some(s2) && s2.active_text@ == text@
                    && s2.selected_row == s.selected_row && strs(s2.preset_texts) == strs(s.preset_texts)
                    && strs(s2.preset_names) == strs(s.preset_names)
                &&& pane_filter_set(*old(self), *final(self), trim_seq(text@))
                &&& *final(self) == (App {
                    filter_defining_state: final(self).filter_defining_state,
                    panes: final(self).panes,
                    ..*old(self)
                })
            },
    {
        let mut taken: Option<FilterDefiningState> = None;
        std::mem::swap(&mut taken, &mut self.filter_defining_state);
        match taken {
            Some(mut s) => {
                s.active_text = String::from_str(text);
                self.filter_defining_state = Some(s);
                self.set_active_filter(trim(text));
            },
            None => {},
        }
    }

    /// The editor of preset row `idx + 1` changed.
    pub fn defining_preset_edited(&mut self, idx: usize, text: &str)
        ensures
            match old(self).filter_defining_state {
                Some(s) => if idx < s.preset_texts@.len() {
                    &&& final(self).filter_defining_state matches Some(s2) && strs(s2.preset_texts) == strs(
                        s.preset_texts,
                    ).update(idx as int, text@) && s2.active_text == s.active_text && s2.selected_row
                        == s.selected_row && strs(s2.preset_names) == strs(s.preset_names)
                    &&& *final(self) == (App { filter_defining_state: final(self).filter_defining_state, ..*old(self) })
                } else {
                    *final(self) == *old(self)
                },
                None => *final(self) == *old(self),
            },
    {
        let mut taken: Option<FilterDefiningState> = None;
        std::mem::swap(&mut taken, &mut self.filter_defining_state);
        match taken {
            Some(mut s) => {
                if idx < s.preset_texts.len() {
                    let ghost before = strs(s.preset_texts);
                    s.preset_texts.set(idx, String::from_str(text));
                    assert(strs(s.preset_texts) =~= before.update(idx as int, text@));
                }
                self.filter_defining_state = Some(s);
            },
            None => {},
        }
    }
}

proof fn lemma_with_slots_prefix(v: Seq<(Seq<char>, Option<Seq<char>>)>, names: Seq<Seq<char>>, texts: Seq<Seq<char>>)
    requires
        texts.len() >= names.len(),
    ensures
        with_slots(v, names, texts.take(names.len() as int)) == with_slots(v, names, texts),
    decreases names.len(),
{
    if names.len() > 0 {
        let n = names.len() as int;
        assert(texts.take(n).take(n - 1) =~= texts.take(n - 1));
        assert(texts.take(n)[n - 1] == texts[n - 1]);
    }
}

} // verus!
