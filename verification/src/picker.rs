//! Items for the interactive pickers, and the choice between the two
//! picker programs.  Running a picker is the surrounding application's
//! business; what an item carries and which picker is chosen are decided
//! here.

use vstd::prelude::*;
use vstd::string::StringExecFns;

use crate::builder::{first_where, lemma_first_where, lemma_first_where_is};
use crate::error::PickerError;

verus! {

/// What kind of entity a pickable item stands for.
#[derive(Clone, Copy)]
pub enum PickableItemKind {
    TimeEntry,
    Project,
    Task,
}

/// The identity a picker hands back: which entity, of which kind.
#[derive(Clone, Copy)]
pub struct PickableItemId {
    pub id: i64,
    pub kind: PickableItemKind,
}

/// One line offered for picking: its identity and its display text.
pub struct PickableItem {
    pub id: PickableItemId,
    pub formatted: String,
}

impl PickableItem {
    /// An item showing `formatted` and standing for `id`.
    pub fn new(id: PickableItemId, formatted: String) -> (r: PickableItem)
        ensures
            r.id == id,
            r.formatted@ == formatted@,
    {
        PickableItem { id, formatted }
    }

    /// The display text.
    pub fn text(&self) -> (r: &String)
        ensures
            r@ == self.formatted@,
    {
        &self.formatted
    }
}

/// Something that lets the user pick one item of a list.
pub trait ItemPicker {
    /// One chosen item's identity, or why none was chosen.
    fn pick(&self, items: Vec<PickableItem>) -> Result<PickableItemId, PickerError>;
}

/// The picker programs the application can run.
pub enum PickerKind {
    Fzf,
    Skim,
}

/// Which picker to use: the embedded one unless the external program is
/// forced.
pub fn get_picker(force_fzf: bool) -> (r: PickerKind)
    ensures
        r is Fzf <==> force_fzf,
{
    if force_fzf {
        PickerKind::Fzf
    } else {
        PickerKind::Skim
    }
}


/// The text offered to the external picker: each item's line followed by a
/// newline.
pub open spec fn picker_input_spec(items: Seq<PickableItem>) -> Seq<char>
    decreases items.len(),
{
    if items.len() == 0 {
        Seq::<char>::empty()
    } else {
        items[0].formatted@ + seq!['\n'] + picker_input_spec(items.drop_first())
    }
}

/// Lays the items out for the external picker, one line each.
pub fn format_as_fzf_input(items: &Vec<PickableItem>) -> (r: String)
    ensures
        r@ == picker_input_spec(items@),
{
    let mut out = String::new();
    let mut i: usize = 0;
    proof {
        assert(items@.skip(0) =~= items@);
        assert(out@ + picker_input_spec(items@) =~= picker_input_spec(items@));
    }
    while i < items.len()
        invariant
            i <= items@.len(),
            picker_input_spec(items@) == out@ + picker_input_spec(items@.skip(i as int)),
        decreases items@.len() - i,
    {
        let ghost old_out = out@;
        let ghost rem = items@.skip(i as int);
        out.append(items[i].formatted.as_str());
        out.append("\n");
        proof {
            reveal_strlit("\n");
            assert("\n"@ =~= seq!['\n']);
            assert(rem[0] == items@[i as int]);
            assert(rem.drop_first() =~= items@.skip(i + 1));
            assert(old_out + (items@[i as int].formatted@ + seq!['\n'] + picker_input_spec(
                items@.skip(i + 1),
            )) =~= out@ + picker_input_spec(items@.skip(i + 1)));
        }
        i = i + 1;
    }
    proof {
        assert(picker_input_spec(items@.skip(items@.len() as int)).len() == 0);
        assert(out@ + picker_input_spec(items@.skip(items@.len() as int)) =~= out@);
    }
    out
}

/// The identity behind a picked line: the first item whose display text is
/// the selected one, or none when the selection matches no item.
pub fn find_picked(items: &Vec<PickableItem>, selected: &str) -> (r: Option<PickableItemId>)
    ensures
        match r {
            Some(id) => (match first_where(items@, |x: PickableItem| x.formatted@ == selected@) {
                Some(k) => id == items@[k].id,
                None => false,
            }),
            None => first_where(items@, |x: PickableItem| x.formatted@ == selected@) is None,
        },
{
    let ghost p = |x: PickableItem| x.formatted@ == selected@;
    let n = items.len();
    let mut i: usize = 0;
    while i < n
        invariant
            i <= n,
            n == items@.len(),
            forall|j: int| 0 <= j < i ==> !#[trigger] p(items@[j]),
            p == (|x: PickableItem| x.formatted@ == selected@),
        decreases n - i,
    {
        if crate::strings::str_eq(items[i].formatted.as_str(), selected) {
            proof {
                lemma_first_where_is(items@, p, i as int);
            }
            return Some(items[i].id);
        }
        proof {
            assert(!p(items@[i as int]));
        }
        i = i + 1;
    }
    proof {
        lemma_first_where(items@, p);
        match first_where(items@, p) {
            Some(k) => {
                assert(!p(items@[k]));
            },
            None => {},
        }
    }
    None
}

} // verus!
