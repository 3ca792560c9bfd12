//! Command coalescing.
//!
//! Commands arrive totally ordered.  Within one drained burst only the
//! latest command of each kind matters: every earlier reload or query is
//! superseded and dropped without side effects.

use vstd::prelude::*;

use crate::item::{models_of, Item, ItemModel};

verus! {

/// One command from the inbound queue.
pub enum Command {
    /// The raw current query string, replacing any earlier query.
    Search(String),
    /// A full candidate set, replacing any earlier set.
    Reload(Vec<Item>),
}

/// The mathematical content of a command.
pub ghost enum CommandModel {
    Search(Seq<char>),
    Reload(Seq<ItemModel>),
}

impl View for Command {
    type V = CommandModel;

    open spec fn view(&self) -> CommandModel {
        match self {
            Command::Search(q) => CommandModel::Search(q@),
            Command::Reload(items) => CommandModel::Reload(models_of(items@)),
        }
    }
}

/// The models of a burst of commands.
pub open spec fn cmd_models(cmds: Seq<Command>) -> Seq<CommandModel> {
    cmds.map_values(|c: Command| c@)
}

/// The query of the last `Search` in the burst, if any.
pub open spec fn latest_query(cmds: Seq<CommandModel>) -> Option<Seq<char>>
    decreases cmds.len(),
{
    if cmds.len() == 0 {
        None
    } else {
        match cmds.last() {
            CommandModel::Search(q) => Some(q),
            CommandModel::Reload(_) => latest_query(cmds.drop_last()),
        }
    }
}

/// The candidate set of the last `Reload` in the burst, if any.
pub open spec fn latest_reload(cmds: Seq<CommandModel>) -> Option<Seq<ItemModel>>
    decreases cmds.len(),
{
    if cmds.len() == 0 {
        None
    } else {
        match cmds.last() {
            CommandModel::Reload(items) => Some(items),
            CommandModel::Search(_) => latest_reload(cmds.drop_last()),
        }
    }
}

/// What survives a drained burst: at most one query and one reload.
pub struct Plan {
    pub query: Option<String>,
    pub reload: Option<Vec<Item>>,
}

/// Collapse a burst to the latest command of each kind.
pub fn coalesce(cmds: Vec<Command>) -> (plan: Plan)
    ensures
        match plan.query {
            Some(q) => latest_query(cmd_models(cmds@)) == Some(q@),
            None => latest_query(cmd_models(cmds@)) is None,
        },
        match plan.reload {
            Some(v) => latest_reload(cmd_models(cmds@)) == Some(models_of(v@)),
            None => latest_reload(cmd_models(cmds@)) is None,
        },
{
    let ghost all = cmd_models(cmds@);
    let mut rest = cmds;
    let mut query: Option<String> = None;
    let mut reload: Option<Vec<Item>> = None;
    while rest.len() > 0
        invariant
            match query {
                Some(q) => latest_query(all) == Some(q@),
                None => latest_query(all) == latest_query(cmd_models(rest@)),
            },
            match reload {
                Some(v) => latest_reload(all) == Some(models_of(v@)),
                None => latest_reload(all) == latest_reload(cmd_models(rest@)),
            },
        decreases rest@.len(),
    {
        let ghost prev = rest@;
        let c = rest.pop().unwrap();
        proof {
            assert(cmd_models(prev).len() == prev.len());
            assert(cmd_models(prev).last() == c@);
            assert(cmd_models(prev).drop_last() =~= cmd_models(rest@));
        }
        match c {
            Command::Search(q) => {
                if query.is_none() {
                    query = Some(q);
                }
            },
            Command::Reload(v) => {
                if reload.is_none() {
                    reload = Some(v);
                }
            },
        }
    }
    Plan { query, reload }
}

} // verus!
