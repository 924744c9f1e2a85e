use twm_core::bbox::BBox;
use twm_core::display::Display;
use twm_core::manager::Manager;
use twm_core::query;
use twm_core::query::QueryError;
use twm_core::tile::Tile;
use twm_core::window::Window;
use twm_core::workspace::Workspace;

fn manager_with(ids: &[u32]) -> Manager {
    Manager::with(ids.iter().map(|id| Workspace::with(*id, Display::new())).collect())
}

#[test]
fn new_manager_has_no_focus() {
    let manager = Manager::new();
    assert_eq!(manager.focused_workspace_id, None);
    assert!(manager.workspaces.is_empty());
    assert!(manager.focused_workspace().is_none());
    let manager = Manager::default();
    assert!(manager.workspaces.is_empty());
    let mut manager = manager_with(&[1, 2]);
    assert_eq!(manager.focused_workspace_id, None);
    assert_eq!(manager.workspaces.len(), 2);
    assert!(manager.focused_workspace().is_none());
    assert!(manager.focused_workspace_mut().is_none());
}

#[test]
fn focused_workspace_is_the_first_with_the_focused_id() {
    let mut manager = manager_with(&[1, 2, 2]);
    manager.workspaces[2].display = Display::with(9, BBox::new());
    manager.focused_workspace_id = Some(2);
    let focused = manager.focused_workspace().unwrap();
    assert_eq!(focused.id, 2);
    assert_eq!(focused.display, Display::new());
    manager.focused_workspace_mut().unwrap().display = Display::with(5, BBox::new());
    assert_eq!(manager.workspaces[1].display, Display::with(5, BBox::new()));
    assert_eq!(manager.workspaces[2].display, Display::with(9, BBox::new()));
    assert_eq!(manager.focused_workspace_id, Some(2));
}

#[test]
fn stale_focus_finds_nothing() {
    let mut manager = manager_with(&[1, 2]);
    manager.focused_workspace_id = Some(3);
    assert!(manager.focused_workspace().is_none());
    assert!(manager.focused_workspace_mut().is_none());
}

#[test]
fn new_ws_adds_and_focuses_a_default_workspace() {
    let mut manager = manager_with(&[4]);
    manager.new_ws();
    assert_eq!(manager.workspaces.len(), 2);
    assert_eq!(manager.workspaces[0].id, 4);
    assert_eq!(manager.workspaces[1].id, 0);
    assert_eq!(manager.focused_workspace_id, Some(0));
    assert!(manager.focused_workspace().unwrap().tiles().is_empty());
}

#[test]
fn clone_copies_the_manager() {
    let mut manager = manager_with(&[4, 5]);
    manager.focused_workspace_id = Some(5);
    let copy = manager.clone();
    assert_eq!(copy.focused_workspace_id, Some(5));
    assert_eq!(copy.workspaces.len(), 2);
    assert_eq!(copy.workspaces[1].id, 5);
}

#[test]
fn queries_without_a_focused_workspace_are_not_available() {
    let manager = manager_with(&[1]);
    assert_eq!(query::tiles_count(&manager), Err(QueryError::NotAvailable));
    assert_eq!(query::tile(&manager, 0), Err(QueryError::NotAvailable));
    assert_eq!(query::focused_tile(&manager), Err(QueryError::NotAvailable));
    assert_eq!(query::layout(&manager), Err(QueryError::NotAvailable));
    assert!(query::focused_workspace(&manager).is_err());
    assert_eq!(query::workspaces_count(&manager), Ok(1));
    assert_eq!(query::protocol_version(), "1.0");
}

#[test]
fn queries_of_the_focused_workspace() {
    let mut manager = manager_with(&[1, 2]);
    manager.focused_workspace_id = Some(2);
    let first = Tile::with(7, BBox::with(1, 1, 1, 1), Window::new());
    let second = Tile::with(8, BBox::with(2, 2, 2, 2), Window::new());
    manager.focused_workspace_mut().unwrap().add_tile(first);
    manager.focused_workspace_mut().unwrap().add_tile(second);
    assert_eq!(query::tiles_count(&manager), Ok(2));
    assert_eq!(query::tile(&manager, 7), Ok(first));
    assert_eq!(query::tile(&manager, 9), Err(QueryError::NotAvailable));
    assert_eq!(query::focused_tile(&manager), Ok(second));
    assert_eq!(query::layout(&manager).unwrap().name, "Sided Layout");
    let snapshot = query::focused_workspace(&manager).unwrap();
    assert_eq!(snapshot.id, 2);
    assert_eq!(snapshot.tiles(), &vec![first, second]);
    assert_eq!(query::workspaces_count(&manager), Ok(2));
    manager.focused_workspace_mut().unwrap().remove_tile_by_id(8);
    assert_eq!(query::focused_tile(&manager), Err(QueryError::NotAvailable));
    assert_eq!(query::tiles_count(&manager), Ok(1));
}
