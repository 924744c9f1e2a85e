//! The `Manager` is responsible for managing all workspaces and keeping track of the active.

use crate::display::Display;
use crate::workspace::Workspace;
use crate::workspace::WorkspaceId;
use vstd::prelude::*;

verus! {

/// Whether the workspace at position `index` is the first of `workspaces` that has the id `id`.
pub open spec fn is_first_workspace_with_id(
    workspaces: Seq<Workspace>,
    id: WorkspaceId,
    index: int,
) -> bool {
    &&& 0 <= index < workspaces.len()
    &&& workspaces[index].id == id
    &&& forall|before: int| 0 <= before < index ==> (#[trigger] workspaces[before]).id != id
}

/// The position of the first of `workspaces` that has the id `id`, if there is one.
pub open spec fn workspace_position(workspaces: Seq<Workspace>, id: WorkspaceId) -> Option<int> {
    if exists|index: int| is_first_workspace_with_id(workspaces, id, index) {
        Some(choose|index: int| is_first_workspace_with_id(workspaces, id, index))
    } else {
        None
    }
}

/// A workspace with the id `id` at position `index` has a first such workspace at or before it.
proof fn lemma_first_workspace_up_to(workspaces: Seq<Workspace>, id: WorkspaceId, index: int)
    requires
        0 <= index < workspaces.len(),
        workspaces[index].id == id,
    ensures
        workspace_position(workspaces, id) is Some,
        workspace_position(workspaces, id).unwrap() <= index,
        is_first_workspace_with_id(workspaces, id, workspace_position(workspaces, id).unwrap()),
    decreases index,
{
    if exists|before: int| 0 <= before < index && (#[trigger] workspaces[before]).id == id {
        let before = choose|before: int|
            0 <= before < index && (#[trigger] workspaces[before]).id == id;
        lemma_first_workspace_up_to(workspaces, id, before);
    } else {
        assert(is_first_workspace_with_id(workspaces, id, index));
        let chosen = choose|first: int| is_first_workspace_with_id(workspaces, id, first);
        if chosen > index {
            assert(workspaces[index].id != id);
        }
    }
}

/// A manager.
#[derive(Debug)]
pub struct Manager {
    /// The id of the focused `Workspace`. `None` if no `Workspace` is focused.
    pub focused_workspace_id: Option<WorkspaceId>,
    /// The list of workspaces.
    pub workspaces: Vec<Workspace>,
}

impl Default for Manager {
    /// Returns a manager without workspaces and without focus.
    fn default() -> (manager: Self)
        ensures
            manager.focused_workspace_id is None,
            manager.workspaces@ == Seq::<Workspace>::empty(),
    {
        Manager { focused_workspace_id: None, workspaces: Vec::new() }
    }
}

impl Clone for Manager {
    /// Returns a manager with the same focus and with workspaces that look the same.
    fn clone(&self) -> (manager: Self)
        ensures
            manager.focused_workspace_id == self.focused_workspace_id,
            manager.workspaces@.len() == self.workspaces@.len(),
            forall|index: int|
                0 <= index < self.workspaces@.len() ==> (#[trigger] manager.workspaces@[index])@
                    == self.workspaces@[index]@,
    {
        let mut workspaces: Vec<Workspace> = Vec::with_capacity(self.workspaces.len());
        let mut index: usize = 0;
        while index < self.workspaces.len()
            invariant
                index <= self.workspaces@.len(),
                workspaces@.len() == index,
                forall|done: int|
                    0 <= done < index ==> (#[trigger] workspaces@[done])@ == self.workspaces@[done]@,
            decreases self.workspaces@.len() - index,
        {
            workspaces.push(self.workspaces[index].clone());
            index += 1;
        }
        Manager { focused_workspace_id: self.focused_workspace_id, workspaces }
    }
}

impl Manager {
    /// The position of the focused workspace: of the first workspace that has the id of the
    /// focused workspace, if a workspace is focused and there is such a workspace.
    pub open spec fn focused_position(&self) -> Option<int> {
        match self.focused_workspace_id {
            Some(id) => workspace_position(self.workspaces@, id),
            None => None,
        }
    }

    /// Whether the focus is on a workspace of the manager: if a workspace is focused, one of
    /// the workspaces has the focused id.
    pub open spec fn wf(&self) -> bool {
        self.focused_workspace_id is Some ==> self.focused_position() is Some
    }

    /// The focused workspace, if there is one.
    pub open spec fn focused(&self) -> Option<Workspace> {
        match self.focused_position() {
            Some(index) => Some(self.workspaces@[index]),
            None => None,
        }
    }

    /// Creates a default manager.
    pub fn new() -> (manager: Self)
        ensures
            manager.focused_workspace_id is None,
            manager.workspaces@ == Seq::<Workspace>::empty(),
            manager.wf(),
    {
        Self::default()
    }

    /// Creates a manager.
    ///
    /// # Arguments
    ///
    /// - `workspaces`: The `Workspace`s managed by this manager.
    pub fn with(workspaces: Vec<Workspace>) -> (manager: Self)
        ensures
            manager.focused_workspace_id is None,
            manager.workspaces == workspaces,
            manager.wf(),
    {
        Self { focused_workspace_id: None, workspaces }
    }

    /// Adds a new default workspace after the others and focuses it.
    pub fn new_ws(&mut self)
        ensures
            final(self).workspaces@.len() == old(self).workspaces@.len() + 1,
            final(self).workspaces@.drop_last() == old(self).workspaces@,
            final(self).workspaces@.last()@.is_fresh(0, Display::empty()),
            final(self).focused_workspace_id == Some(0u32),
            final(self).wf(),
    {
        let workspace = Workspace::new();
        self.focused_workspace_id = Some(workspace.id);
        self.workspaces.push(workspace);
        assert(self.workspaces@.drop_last() =~= old(self).workspaces@);
        proof {
            lemma_first_workspace_up_to(self.workspaces@, 0, self.workspaces@.len() - 1);
        }
    }

    /// Returns the position of the focused workspace, if there is one.
    fn position(&self) -> (found: Option<usize>)
        ensures
            match found {
                Some(index) => self.focused_position() == Some(index as int),
                None => self.focused_position() is None,
            },
    {
        match self.focused_workspace_id {
            Some(focused_workspace_id) => {
                let mut index: usize = 0;
                while index < self.workspaces.len()
                    invariant
                        index <= self.workspaces@.len(),
                        self.focused_workspace_id == Some(focused_workspace_id),
                        forall|before: int|
                            0 <= before < index ==> (#[trigger] self.workspaces@[before]).id
                                != focused_workspace_id,
                    decreases self.workspaces@.len() - index,
                {
                    if self.workspaces[index].id == focused_workspace_id {
                        assert(is_first_workspace_with_id(
                            self.workspaces@,
                            focused_workspace_id,
                            index as int,
                        ));
                        return Some(index);
                    }
                    index += 1;
                }
                None
            },
            None => None,
        }
    }

    /// Returns a reference to the focused workspace.
    ///
    /// # Returns
    ///
    /// `Some(&Workspace)` if a workspace is focused, `None` otherwise: if no id is focused, or
    /// if no workspace has the focused id.
    pub fn focused_workspace(&self) -> (workspace: Option<&Workspace>)
        ensures
            match workspace {
                Some(workspace) => self.focused() == Some(*workspace),
                None => self.focused() is None,
            },
    {
        match self.position() {
            Some(index) => Some(&self.workspaces[index]),
            None => None,
        }
    }

    /// Returns a mutable reference to the focused workspace.
    ///
    /// # Returns
    ///
    /// `Some(&mut Workspace)` if a workspace is focused, `None` otherwise.
    pub fn focused_workspace_mut(&mut self) -> (workspace: Option<&mut Workspace>)
        ensures
            final(self).focused_workspace_id == old(self).focused_workspace_id,
            match workspace {
                Some(workspace) => {
                    &&& old(self).focused() == Some(*workspace)
                    &&& final(self).workspaces@ == old(self).workspaces@.update(
                        old(self).focused_position().unwrap(),
                        *final(workspace),
                    )
                },
                None => old(self).focused() is None && final(self).workspaces@ == old(
                    self,
                ).workspaces@,
            },
    {
        match self.position() {
            Some(index) => Some(&mut self.workspaces[index]),
            None => None,
        }
    }
}

} // verus!
