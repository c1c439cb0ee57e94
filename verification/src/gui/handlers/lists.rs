//! The lists page: loading, creating, deleting and editing lists.

use vstd::prelude::*;
use crate::gui::message::ListsMessage;
use crate::gui::state::ListsState;
use crate::text::{chars_of, concat3, decimal, push_decimal, string_of, trim_chars, trim_spec};

verus! {

/// The work that a lists message starts; each ends in the message named.
#[derive(Debug)]
pub enum ListsTask {
    /// Nothing to do.
    Idle,
    /// Deliver this message next.
    Done(ListsMessage),
    /// Load the list summaries (then `ListsLoaded`).
    LoadLists,
    /// Create the list (then `CreatedList`).
    CreateList(String),
    /// Delete the list (then `DeletedList`).
    DeleteList(String),
    /// Add the wallpapers to the list (then `AddedToList`).
    AddToList(String, Vec<String>),
}

/// Whether `new` keeps every field of `old` that its flag does not free:
/// status, error, editing flag, lists, selected list, its items, the new
/// list's name, and the pending additions and removals.
pub open spec fn keeps(
    new: ListsState,
    old: ListsState,
    status: bool,
    error: bool,
    editing: bool,
    lists: bool,
    selected: bool,
    items: bool,
    name: bool,
    add: bool,
    remove: bool,
) -> bool {
    &&& !status ==> new.status_message == old.status_message
    &&& !error ==> new.error_message == old.error_message
    &&& !editing ==> new.is_editing == old.is_editing
    &&& !lists ==> new.lists == old.lists
    &&& !selected ==> new.selected_list == old.selected_list
    &&& !items ==> new.selected_list_items == old.selected_list_items
    &&& !name ==> new.new_list_name == old.new_list_name
    &&& !add ==> new.pending_add_paths == old.pending_add_paths
    &&& !remove ==> new.pending_remove_ids == old.pending_remove_ids
    &&& new.pending_delete_list == old.pending_delete_list
    &&& new.pending_remove_item == old.pending_remove_item
}

/// Whether the error shown is the text of `e`.
pub open spec fn shows_error(state: ListsState, e: crate::error::SwpError) -> bool {
    state.error_message matches Some(m) && m@ == e.message_spec()
}

/// What updating the lists page `old` on `message` leads to: the page `new` and the work `r`.
pub open spec fn lists_update_post(old: ListsState, new: ListsState, message: ListsMessage, r: ListsTask) -> bool {
    match message {
        ListsMessage::LoadLists => keeps(new, old, true, true, false, false, false, false, false, false, false)
            && new.status_message@ == "Loading lists..."@ && new.error_message is None && r is LoadLists,
        ListsMessage::ListsLoaded(Ok(l)) => keeps(new, old, true, true, false, true, false, false, false, false, false)
            && new.lists == l && new.status_message@ == "Loaded "@ + decimal(l@.len()) + " list(s)."@
            && new.error_message is None && r is Idle,
        ListsMessage::ListsLoaded(Err(e)) => keeps(new, old, true, true, false, false, false, false, false, false, false)
            && new.status_message@ == "Failed to load lists."@ && shows_error(new, e) && r is Idle,
        ListsMessage::CreateListPressed => keeps(new, old, true, false, true, false, false, false, true, false, false)
            && new.is_editing && new.new_list_name@.len() == 0
            && new.status_message@ == "Enter list name and press Create."@ && r is Idle,
        ListsMessage::ConfirmCreateList(n) => if trim_spec(n@).len() == 0 {
            keeps(new, old, false, true, true, false, false, false, false, false, false)
                && !new.is_editing
                && (new.error_message matches Some(m) && m@ == "List name cannot be empty."@) && r is Idle
        } else {
            keeps(new, old, true, true, true, false, false, false, false, false, false)
                && !new.is_editing && new.status_message@ == "Creating list '"@ + trim_spec(n@) + "'..."@
                && new.error_message is None && (r matches ListsTask::CreateList(t) && t@ == trim_spec(n@))
        },
        ListsMessage::CreatedList(Ok(())) => keeps(new, old, true, true, false, false, false, false, false, false, false)
            && new.status_message@ == "List created successfully."@ && new.error_message is None
            && r == ListsTask::Done(ListsMessage::LoadLists),
        ListsMessage::CreatedList(Err(e)) => keeps(new, old, true, true, false, false, false, false, false, false, false)
            && new.status_message@ == "Failed to create list."@ && shows_error(new, e) && r is Idle,
        ListsMessage::SelectList(_) => keeps(new, old, true, true, false, false, false, true, false, false, false)
            && new.status_message@ == "List selected."@ && new.error_message is None
            && new.selected_list_items@.len() == 0 && r is Idle,
        ListsMessage::DeleteListPressed(n) => keeps(new, old, true, false, false, false, false, false, false, false, false)
            && new.status_message@ == "Are you sure? Deleting '"@ + n@ + "'..."@
            && (r matches ListsTask::DeleteList(d) && d == n),
        ListsMessage::DeletedList(n, Ok(())) => keeps(new, old, true, true, false, false, true, false, false, false, false)
            && new.selected_list is None && new.status_message@ == "List '"@ + n@ + "' deleted."@
            && new.error_message is None && r == ListsTask::Done(ListsMessage::LoadLists),
        ListsMessage::DeletedList(_, Err(e)) => keeps(new, old, true, true, false, false, false, false, false, false, false)
            && new.status_message@ == "Failed to delete list."@ && shows_error(new, e) && r is Idle,
        ListsMessage::AddWallpapersPressed(_) => keeps(new, old, true, false, true, false, false, false, false, true, false)
            && new.is_editing && new.pending_add_paths@.len() == 0
            && new.status_message@ == "Select wallpapers to add to this list."@ && r is Idle,
        ListsMessage::ConfirmedAddWallpapers(n, p) => keeps(new, old, true, true, true, false, false, false, false, false, false)
            && !new.is_editing && new.status_message@ == "Adding "@ + decimal(p@.len()) + " wallpapers to '"@ + n@ + "'..."@
            && new.error_message is None && r == ListsTask::AddToList(n, p),
        ListsMessage::AddedToList(n, Ok(())) => keeps(new, old, true, true, false, false, false, false, false, false, false)
            && new.status_message@ == "Wallpapers added to '"@ + n@ + "'."@ && new.error_message is None
            && r == ListsTask::Done(ListsMessage::SelectList(n)),
        ListsMessage::AddedToList(_, Err(e)) => keeps(new, old, true, true, false, false, false, false, false, false, false)
            && new.status_message@ == "Failed to add wallpapers."@ && shows_error(new, e) && r is Idle,
        ListsMessage::RemoveWallpapersPressed(_, _) => keeps(new, old, true, false, true, false, false, false, false, false, true)
            && new.is_editing && new.pending_remove_ids@.len() == 0
            && new.status_message@ == "Select wallpapers to remove."@ && r is Idle,
        ListsMessage::RemovedFromList(n, Ok(())) => keeps(new, old, true, true, true, false, false, false, false, false, false)
            && !new.is_editing && new.status_message@ == "Wallpapers removed from '"@ + n@ + "'."@
            && new.error_message is None && r == ListsTask::Done(ListsMessage::SelectList(n)),
        ListsMessage::RemovedFromList(_, Err(e)) => keeps(new, old, true, true, true, false, false, false, false, false, false)
            && !new.is_editing && new.status_message@ == "Failed to remove wallpapers."@
            && shows_error(new, e) && r is Idle,
        ListsMessage::PlayListPressed(n, _) => keeps(new, old, true, true, false, false, false, false, false, false, false)
            && new.status_message@ == "Slideshow for '"@ + n@ + "' not yet implemented."@
            && new.error_message is None && r is Idle,
        ListsMessage::ConfirmedDeleteList(_) => new == old && r is Idle,
    }
}

/// Updates the lists page on `message` and gives the work it starts.
pub fn update(state: &mut ListsState, message: ListsMessage) -> (r: ListsTask)
    ensures
        lists_update_post(*old(state), *final(state), message, r),

{
    match message {
        ListsMessage::LoadLists => {
            state.status_message = String::from_str("Loading lists...");
            state.error_message = None;
            ListsTask::LoadLists
        },
        ListsMessage::ListsLoaded(Ok(lists)) => {
            let n = lists.len();
            state.lists = lists;
            let mut v = chars_of("Loaded ");
            push_decimal(&mut v, n as u64);
            let mut s = string_of(&v);
            s.append(" list(s).");
            state.status_message = s;
            state.error_message = None;
            ListsTask::Idle
        },
        ListsMessage::ListsLoaded(Err(err)) => {
            state.status_message = String::from_str("Failed to load lists.");
            state.error_message = Some(err.message());
            ListsTask::Idle
        },
        ListsMessage::CreateListPressed => {
            state.is_editing = true;
            state.new_list_name = String::new();
            state.status_message = String::from_str("Enter list name and press Create.");
            ListsTask::Idle
        },
        ListsMessage::ConfirmCreateList(name) => {
            state.is_editing = false;
            let t = trim_chars(&chars_of(name.as_str()));
            if t.len() == 0 {
                state.error_message = Some(String::from_str("List name cannot be empty."));
                return ListsTask::Idle;
            }
            let trimmed = string_of(&t);
            state.status_message = concat3("Creating list '", trimmed.as_str(), "'...");
            state.error_message = None;
            ListsTask::CreateList(trimmed)
        },
        ListsMessage::CreatedList(Ok(())) => {
            state.status_message = String::from_str("List created successfully.");
            state.error_message = None;
            ListsTask::Done(ListsMessage::LoadLists)
        },
        ListsMessage::CreatedList(Err(err)) => {
            state.status_message = String::from_str("Failed to create list.");
            state.error_message = Some(err.message());
            ListsTask::Idle
        },
        ListsMessage::SelectList(_list_name) => {
            state.status_message = String::from_str("List selected.");
            state.error_message = None;
            state.selected_list_items.clear();
            ListsTask::Idle
        },
        ListsMessage::DeleteListPressed(list_name) => {
            state.status_message = concat3("Are you sure? Deleting '", list_name.as_str(), "'...");
            ListsTask::DeleteList(list_name)
        },
        ListsMessage::DeletedList(name, Ok(())) => {
            state.selected_list = None;
            state.status_message = concat3("List '", name.as_str(), "' deleted.");
            state.error_message = None;
            ListsTask::Done(ListsMessage::LoadLists)
        },
        ListsMessage::DeletedList(_name, Err(err)) => {
            state.status_message = String::from_str("Failed to delete list.");
            state.error_message = Some(err.message());
            ListsTask::Idle
        },
        ListsMessage::AddWallpapersPressed(_list_name) => {
            state.is_editing = true;
            state.pending_add_paths.clear();
            state.status_message = String::from_str("Select wallpapers to add to this list.");
            ListsTask::Idle
        },
        ListsMessage::ConfirmedAddWallpapers(list_name, paths) => {
            state.is_editing = false;
            let mut v = chars_of("Adding ");
            push_decimal(&mut v, paths.len() as u64);
            let mut s = string_of(&v);
            s.append(" wallpapers to '");
            s.append(list_name.as_str());
            s.append("'...");
            state.status_message = s;
            state.error_message = None;
            ListsTask::AddToList(list_name, paths)
        },
        ListsMessage::AddedToList(list_name, Ok(())) => {
            state.status_message = concat3("Wallpapers added to '", list_name.as_str(), "'.");
            state.error_message = None;
            ListsTask::Done(ListsMessage::SelectList(list_name))
        },
        ListsMessage::AddedToList(_list_name, Err(err)) => {
            state.status_message = String::from_str("Failed to add wallpapers.");
            state.error_message = Some(err.message());
            ListsTask::Idle
        },
        ListsMessage::RemoveWallpapersPressed(_list_name, _ids) => {
            state.is_editing = true;
            state.pending_remove_ids.clear();
            state.status_message = String::from_str("Select wallpapers to remove.");
            ListsTask::Idle
        },
        ListsMessage::RemovedFromList(list_name, result) => {
            state.is_editing = false;
            match result {
                Ok(()) => {
                    state.status_message = concat3("Wallpapers removed from '", list_name.as_str(), "'.");
                    state.error_message = None;
                    ListsTask::Done(ListsMessage::SelectList(list_name))
                },
                Err(err) => {
                    state.status_message = String::from_str("Failed to remove wallpapers.");
                    state.error_message = Some(err.message());
                    ListsTask::Idle
                },
            }
        },
        ListsMessage::PlayListPressed(list_name, _interval_secs) => {
            state.status_message = concat3("Slideshow for '", list_name.as_str(), "' not yet implemented.");
            state.error_message = None;
            ListsTask::Idle
        },
        ListsMessage::ConfirmedDeleteList(_) => ListsTask::Idle,
    }
}

} // verus!
