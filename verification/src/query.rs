//! The read-only questions that can be asked about a manager.
//!
//! Every question is answered with a value, or with the one error that says that the value
//! is not available.

use crate::layout::Layout;
use crate::layout::LayoutMeta;
use crate::manager::Manager;
use crate::tile::Tile;
use crate::tile::TileId;
use crate::workspace::Workspace;
use vstd::prelude::*;

verus! {

/// Why a question has no answer.
#[derive(Copy, Clone, Debug, Eq, Hash, PartialEq, Structural)]
pub enum QueryError {
    /// What was asked for is not there: no workspace is focused, or it has no such tile.
    NotAvailable,
}

/// Returns the version of the protocol: `1.0`.
pub fn protocol_version() -> (version: String)
    ensures
        version@ == "1.0"@,
{
    "1.0".to_string()
}

/// Returns the number of tiles in the focused workspace.
pub fn tiles_count(manager: &Manager) -> (count: Result<usize, QueryError>)
    ensures
        match manager.focused() {
            Some(workspace) => count == Ok::<usize, QueryError>(workspace.tiles@.len() as usize),
            None => count == Err::<usize, QueryError>(QueryError::NotAvailable),
        },
{
    match manager.focused_workspace() {
        Some(workspace) => Ok(workspace.tiles().len()),
        None => Err(QueryError::NotAvailable),
    }
}

/// Returns the tile with the id `id` in the focused workspace.
pub fn tile(manager: &Manager, id: TileId) -> (tile: Result<Tile, QueryError>)
    ensures
        tile == match manager.focused() {
            Some(workspace) => match workspace@.tile_by_id(id) {
                Some(found) => Ok::<Tile, QueryError>(found),
                None => Err::<Tile, QueryError>(QueryError::NotAvailable),
            },
            None => Err::<Tile, QueryError>(QueryError::NotAvailable),
        },
{
    match manager.focused_workspace() {
        Some(workspace) => match workspace.tile_by_id(id) {
            Some(tile) => Ok(*tile),
            None => Err(QueryError::NotAvailable),
        },
        None => Err(QueryError::NotAvailable),
    }
}

/// Returns the metadata of the layout of the focused workspace.
pub fn layout(manager: &Manager) -> (meta: Result<LayoutMeta, QueryError>)
    ensures
        match manager.focused() {
            Some(workspace) => meta is Ok && meta->Ok_0.name@ == workspace.layout.name(),
            None => meta == Err::<LayoutMeta, QueryError>(QueryError::NotAvailable),
        },
{
    match manager.focused_workspace() {
        Some(workspace) => Ok(workspace.layout.metadata()),
        None => Err(QueryError::NotAvailable),
    }
}

/// Returns the focused tile of the focused workspace.
pub fn focused_tile(manager: &Manager) -> (tile: Result<Tile, QueryError>)
    ensures
        tile == match manager.focused() {
            Some(workspace) => match workspace@.focused_tile() {
                Some(found) => Ok::<Tile, QueryError>(found),
                None => Err::<Tile, QueryError>(QueryError::NotAvailable),
            },
            None => Err::<Tile, QueryError>(QueryError::NotAvailable),
        },
{
    match manager.focused_workspace() {
        Some(workspace) => match workspace.focused_tile() {
            Some(tile) => Ok(*tile),
            None => Err(QueryError::NotAvailable),
        },
        None => Err(QueryError::NotAvailable),
    }
}

/// Returns a snapshot of the focused workspace.
pub fn focused_workspace(manager: &Manager) -> (workspace: Result<Workspace, QueryError>)
    ensures
        match manager.focused() {
            Some(focused) => workspace is Ok && workspace->Ok_0@ == focused@,
            None => workspace == Err::<Workspace, QueryError>(QueryError::NotAvailable),
        },
{
    match manager.focused_workspace() {
        Some(workspace) => Ok(workspace.clone()),
        None => Err(QueryError::NotAvailable),
    }
}

/// Returns the number of workspaces.
pub fn workspaces_count(manager: &Manager) -> (count: Result<usize, QueryError>)
    ensures
        count == Ok::<usize, QueryError>(manager.workspaces@.len() as usize),
{
    Ok(manager.workspaces.len())
}

} // verus!
