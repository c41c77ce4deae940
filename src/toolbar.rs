//! The state of the preview window's toolbar buttons.

use vstd::prelude::*;

verus! {

/// One toolbar button and whether it can be pressed.
#[derive(Debug, Clone)]
pub enum ToolbarItem {
    Navigation { label: String, enabled: bool },
    Zoom { label: String, enabled: bool },
    Print { enabled: bool },
    Cancel { enabled: bool },
}

impl ToolbarItem {
    pub open spec fn spec_enabled(&self) -> bool {
        match self {
            ToolbarItem::Navigation { enabled, .. } => *enabled,
            ToolbarItem::Zoom { enabled, .. } => *enabled,
            ToolbarItem::Print { enabled } => *enabled,
            ToolbarItem::Cancel { enabled } => *enabled,
        }
    }

    /// Whether the button can be pressed.
    pub fn is_enabled(&self) -> (r: bool)
        ensures
            r == self.spec_enabled(),
    {
        match self {
            ToolbarItem::Navigation { enabled, .. } => *enabled,
            ToolbarItem::Zoom { enabled, .. } => *enabled,
            ToolbarItem::Print { enabled } => *enabled,
            ToolbarItem::Cancel { enabled } => *enabled,
        }
    }
}

/// The toolbar: previous, next, zoom, print and cancel, in that order.
pub struct Toolbar {
    items: Vec<ToolbarItem>,
}

impl Toolbar {
    pub closed spec fn spec_items(&self) -> Seq<ToolbarItem> {
        self.items@
    }

    /// The layout of the toolbar's five buttons.
    pub open spec fn well_formed(&self) -> bool {
        let s = self.spec_items();
        &&& s.len() == 5
        &&& s[0] is Navigation && s[1] is Navigation && s[2] is Zoom && s[3] is Print && s[4] is Cancel
    }

    /// A toolbar whose navigation and zoom can be used, and whose print and
    /// cancel buttons wait for a document and a job.
    pub fn new() -> (r: Toolbar)
        ensures
            r.well_formed(),
            r.spec_items()[0] matches ToolbarItem::Navigation { label, enabled } && label@ == "Previous"@ && enabled,
            r.spec_items()[1] matches ToolbarItem::Navigation { label, enabled } && label@ == "Next"@ && enabled,
            r.spec_items()[2] matches ToolbarItem::Zoom { label, enabled } && label@ == "100%"@ && enabled,
            !r.spec_items()[3].spec_enabled(),
            !r.spec_items()[4].spec_enabled(),
    {
        let mut items: Vec<ToolbarItem> = Vec::new();
        items.push(ToolbarItem::Navigation { label: String::from_str("Previous"), enabled: true });
        items.push(ToolbarItem::Navigation { label: String::from_str("Next"), enabled: true });
        items.push(ToolbarItem::Zoom { label: String::from_str("100%"), enabled: true });
        items.push(ToolbarItem::Print { enabled: false });
        items.push(ToolbarItem::Cancel { enabled: false });
        Toolbar { items }
    }

    /// Enables printing once a document is loaded, and cancelling while a
    /// job is under way; navigation and zoom stay enabled.
    pub fn update_state(&mut self, document_loaded: bool, job_status: Option<String>)
        requires
            old(self).well_formed(),
        ensures
            final(self).well_formed(),
            final(self).spec_items()[0].spec_enabled(),
            final(self).spec_items()[1].spec_enabled(),
            final(self).spec_items()[2].spec_enabled(),
            final(self).spec_items()[3].spec_enabled() == document_loaded,
            final(self).spec_items()[4].spec_enabled() == job_status is Some,
    {
        let mut items: Vec<ToolbarItem> = Vec::new();
        let mut i: usize = 0;
        while i < self.items.len()
            invariant
                self.well_formed(),
                0 <= i <= 5,
                items@.len() == i,
                forall|k: int| 0 <= k < i ==> (items@[k] is Navigation <==> self.items@[k] is Navigation) && (items@[k] is Zoom
                    <==> self.items@[k] is Zoom) && (items@[k] is Print <==> self.items@[k] is Print) && (items@[k] is Cancel
                    <==> self.items@[k] is Cancel),
                forall|k: int| 0 <= k < i && k < 3 ==> items@[k].spec_enabled(),
                i > 3 ==> items@[3].spec_enabled() == document_loaded,
                i > 4 ==> items@[4].spec_enabled() == job_status is Some,
            decreases self.items.len() - i,
        {
            let item = match &self.items[i] {
                ToolbarItem::Navigation { label, .. } => ToolbarItem::Navigation { label: label.clone(), enabled: true },
                ToolbarItem::Zoom { label, .. } => ToolbarItem::Zoom { label: label.clone(), enabled: true },
                ToolbarItem::Print { .. } => ToolbarItem::Print { enabled: document_loaded },
                ToolbarItem::Cancel { .. } => ToolbarItem::Cancel { enabled: job_status.is_some() },
            };
            items.push(item);
            i = i + 1;
        }
        self.items = items;
    }

    /// The buttons, in order.
    pub fn items(&self) -> (r: &Vec<ToolbarItem>)
        ensures
            r@ == self.spec_items(),
    {
        &self.items
    }
}

impl Default for Toolbar {
    fn default() -> (r: Toolbar)
        ensures
            r.well_formed(),
    {
        Toolbar::new()
    }
}

} // verus!
