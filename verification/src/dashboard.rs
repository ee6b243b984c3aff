//! The collection dashboard and file list: what each card offers and which action a
//! frame's clicks amount to.

use vstd::prelude::*;
use crate::models::FileEntry;
use crate::text::{append_vec, chars_of, string_of};

verus! {

/// What the dashboard asks for.
pub enum DashboardAction {
    Idle,
    EditFile(String),
    DeleteFile(String),
    NewFile,
    Refresh,
}

/// What a file card asks for.
#[derive(Clone, Copy, Debug, PartialEq, Eq, Structural)]
pub enum CardAction {
    Idle,
    Edit,
    Delete,
}

/// The content of a dashboard action.
pub enum DashboardActionV {
    Idle,
    EditFile(Seq<char>),
    DeleteFile(Seq<char>),
    NewFile,
    Refresh,
}

impl View for DashboardAction {
    type V = DashboardActionV;

    open spec fn view(&self) -> DashboardActionV {
        match self {
            DashboardAction::Idle => DashboardActionV::Idle,
            DashboardAction::EditFile(n) => DashboardActionV::EditFile(n@),
            DashboardAction::DeleteFile(n) => DashboardActionV::DeleteFile(n@),
            DashboardAction::NewFile => DashboardActionV::NewFile,
            DashboardAction::Refresh => DashboardActionV::Refresh,
        }
    }
}

/// The action of a card: only drafts offer deletion, and a deletion click wins over an
/// edit click.
pub open spec fn card_action_spec(draft: bool, edit_clicked: bool, delete_clicked: bool) -> CardAction {
    if draft && delete_clicked {
        CardAction::Delete
    } else if edit_clicked {
        CardAction::Edit
    } else {
        CardAction::Idle
    }
}

/// The action of a card (see `card_action_spec`).
pub fn card_action(draft: bool, edit_clicked: bool, delete_clicked: bool) -> (r: CardAction)
    ensures
        r == card_action_spec(draft, edit_clicked, delete_clicked),
{
    let mut action = CardAction::Idle;
    if edit_clicked {
        action = CardAction::Edit;
    }
    if draft {
        if delete_clicked {
            action = CardAction::Delete;
        }
    }
    action
}

/// The action of the dashboard header: refreshing wins over a new file.
pub open spec fn header_action_spec(new_clicked: bool, refresh_clicked: bool) -> DashboardActionV {
    if refresh_clicked {
        DashboardActionV::Refresh
    } else if new_clicked {
        DashboardActionV::NewFile
    } else {
        DashboardActionV::Idle
    }
}

/// The action of a frame from the header's clicks and the cards' actions (card `i`
/// showing `names[i]`): the last card that asks for something wins, then the header.
pub open spec fn dashboard_action_spec(
    new_clicked: bool,
    refresh_clicked: bool,
    names: Seq<Seq<char>>,
    cards: Seq<CardAction>,
) -> DashboardActionV
    decreases cards.len(),
{
    if cards.len() == 0 {
        header_action_spec(new_clicked, refresh_clicked)
    } else {
        match cards.last() {
            CardAction::Edit => DashboardActionV::EditFile(names[cards.len() - 1]),
            CardAction::Delete => DashboardActionV::DeleteFile(names[cards.len() - 1]),
            CardAction::Idle => dashboard_action_spec(new_clicked, refresh_clicked, names, cards.drop_last()),
        }
    }
}

/// The action of a frame (see `dashboard_action_spec`).
pub fn dashboard_action(
    new_clicked: bool,
    refresh_clicked: bool,
    entries: &Vec<FileEntry>,
    cards: &Vec<CardAction>,
) -> (r: DashboardAction)
    requires
        entries.len() == cards.len(),
    ensures
        r@ == dashboard_action_spec(
            new_clicked,
            refresh_clicked,
            entries@.map_values(|e: FileEntry| e.name@),
            cards@,
        ),
{
    let ghost names = entries@.map_values(|e: FileEntry| e.name@);
    let mut action = DashboardAction::Idle;
    if new_clicked {
        action = DashboardAction::NewFile;
    }
    if refresh_clicked {
        action = DashboardAction::Refresh;
    }
    let mut i: usize = 0;
    while i < cards.len()
        invariant
            i <= cards.len() == entries.len(),
            names == entries@.map_values(|e: FileEntry| e.name@),
            action@ == dashboard_action_spec(new_clicked, refresh_clicked, names, cards@.take(i as int)),
        decreases cards.len() - i,
    {
        assert(cards@.take(i + 1).drop_last() =~= cards@.take(i as int));
        assert(cards@.take(i + 1).last() == cards@[i as int]);
        match cards[i] {
            CardAction::Edit => {
                action = DashboardAction::EditFile(entries[i].name.clone());
            },
            CardAction::Delete => {
                action = DashboardAction::DeleteFile(entries[i].name.clone());
            },
            CardAction::Idle => {},
        }
        i += 1;
    }
    assert(cards@.take(cards.len() as int) =~= cards@);
    action
}

/// The label of a file in the side list: a pencil for drafts, a check mark for
/// published files, then the title.
pub fn file_label(entry: &FileEntry) -> (r: String)
    ensures
        r@ == (if entry.draft {
            "📝 "@
        } else {
            "✅ "@
        }) + entry.title@,
{
    let mut v = if entry.draft {
        chars_of("📝 ")
    } else {
        chars_of("✅ ")
    };
    append_vec(&mut v, &chars_of(entry.title.as_str()));
    string_of(&v)
}

/// The status text of a card.
pub fn status_label(draft: bool) -> (r: &'static str)
    ensures
        r@ == if draft {
            "Draft"@
        } else {
            "Published"@
        },
{
    if draft {
        "Draft"
    } else {
        "Published"
    }
}

/// The warning given when deleting a file that is not a draft.
pub open spec fn not_draft_warning() -> Seq<char> {
    "⚠️ Solo se pueden eliminar archivos en estado 'draft: true'"@
}

/// Whether the open document may be deleted: only drafts (`draft: true`) may; any
/// other document gets the warning.
pub fn delete_check(frontmatter: &crate::yaml::YamlMapping) -> (r: Result<(), String>)
    ensures
        r is Ok <==> crate::frontmatter::is_draft_v(frontmatter@),
        r matches Err(m) ==> m@ == not_draft_warning(),
{
    if crate::frontmatter::is_draft(frontmatter) {
        Ok(())
    } else {
        Err(String::from_str("⚠️ Solo se pueden eliminar archivos en estado 'draft: true'"))
    }
}

} // verus!

verus! {

/// Only drafts can be deleted from the dashboard: a published file's card never asks
/// for deletion, and the dashboard asks to delete a file only when its card did.
pub proof fn law_only_drafts_deleted(draft: bool, edit_clicked: bool, delete_clicked: bool)
    ensures
        !draft ==> card_action_spec(draft, edit_clicked, delete_clicked) != CardAction::Delete,
{
}

/// The dashboard asks to delete the file of a card only when that card asked for it
/// (card `i` showing `names[i]`).
pub proof fn law_delete_comes_from_card(
    new_clicked: bool,
    refresh_clicked: bool,
    names: Seq<Seq<char>>,
    cards: Seq<CardAction>,
)
    requires
        names.len() >= cards.len(),
    ensures
        dashboard_action_spec(new_clicked, refresh_clicked, names, cards) matches DashboardActionV::DeleteFile(n)
            ==> exists|i: int| 0 <= i < cards.len() && cards[i] == CardAction::Delete && #[trigger] names[i] == n,
    decreases cards.len(),
{
    if cards.len() > 0 {
        let k = cards.len() - 1;
        if cards.last() == CardAction::Idle {
            law_delete_comes_from_card(new_clicked, refresh_clicked, names, cards.drop_last());
            if dashboard_action_spec(new_clicked, refresh_clicked, names, cards) is DeleteFile {
                let n = dashboard_action_spec(new_clicked, refresh_clicked, names, cards)->DeleteFile_0;
                let i = choose|i: int| 0 <= i < cards.drop_last().len() && cards.drop_last()[i] == CardAction::Delete
                    && #[trigger] names[i] == n;
                assert(cards[i] == cards.drop_last()[i]);
            }
        } else if cards.last() == CardAction::Delete {
            assert(cards[k] == CardAction::Delete);
            assert(names[k] == names[k]);
        }
    }
}

} // verus!
