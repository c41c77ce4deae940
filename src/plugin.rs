//! Plugins: their identity, metadata and lifecycle, the registry of loaded
//! plugins and the registry of the capabilities they offer.

use vstd::prelude::*;
use crate::job::{uuid_text, JobId};

verus! {

/// The identifier of a plugin, a text.
#[derive(Debug, Clone)]
pub struct PluginId(String);

impl View for PluginId {
    type V = Seq<char>;

    closed spec fn view(&self) -> Seq<char> {
        self.0@
    }
}

impl PluginId {
    /// The plugin id `id`.
    pub fn new(id: String) -> (r: PluginId)
        ensures
            r@ == id@,
    {
        PluginId(id)
    }

    /// The plugin id written as the UUID `uuid`.
    pub fn from_uuid(uuid: u128) -> (r: PluginId)
        ensures
            r@ == uuid_text(uuid),
    {
        PluginId(JobId(uuid).to_string())
    }

    /// The id's text.
    pub fn as_str(&self) -> (r: &str)
        ensures
            r@ == self@,
    {
        self.0.as_str()
    }

    /// Whether two ids are the same text.
    pub fn same_as(&self, other: &PluginId) -> (r: bool)
        ensures
            r == (self@ == other@),
    {
        self.0 == other.0
    }
}

/// The kind of service a plugin provides.
#[derive(Debug, Clone, Copy, PartialEq, Eq, Structural)]
pub enum PluginType {
    DocumentFilter,
    Layout,
    PrintHook,
    UIExtension,
    Utility,
    Custom,
}

impl PluginType {
    pub open spec fn spec_name(self) -> Seq<char> {
        match self {
            PluginType::DocumentFilter => "document-filter"@,
            PluginType::Layout => "layout"@,
            PluginType::PrintHook => "print-hook"@,
            PluginType::UIExtension => "ui-extension"@,
            PluginType::Utility => "utility"@,
            PluginType::Custom => "custom"@,
        }
    }

    /// The kind's name, under which its plugins register as a capability.
    pub fn as_str(self) -> (r: &'static str)
        ensures
            r@ == self.spec_name(),
    {
        match self {
            PluginType::DocumentFilter => "document-filter",
            PluginType::Layout => "layout",
            PluginType::PrintHook => "print-hook",
            PluginType::UIExtension => "ui-extension",
            PluginType::Utility => "utility",
            PluginType::Custom => "custom",
        }
    }
}

/// Where a plugin is in its lifecycle.
#[derive(Debug, Clone, Copy, PartialEq, Eq, Structural)]
pub enum PluginStatus {
    Loaded,
    Enabled,
    Disabled,
    Error,
}

/// Why a plugin operation failed.
#[derive(Debug, Clone)]
pub enum PluginError {
    InitError(String),
    RuntimeError(String),
    CapabilityError(String),
    CommandError(String),
    NotFound(String),
}

/// What a plugin says about itself.
#[derive(Debug, Clone)]
pub struct PluginMetadata {
    pub id: PluginId,
    pub name: String,
    pub version: String,
    pub description: String,
    pub author: String,
    pub license: String,
    pub plugin_type: PluginType,
    pub entry_point: String,
}

/// The ids registered under capability `cap` in `caps`.
pub open spec fn ids_for(caps: Seq<(Seq<char>, Seq<Seq<char>>)>, cap: Seq<char>) -> Seq<Seq<char>>
    decreases caps.len(),
{
    if caps.len() == 0 {
        Seq::empty()
    } else if caps[0].0 == cap {
        caps[0].1
    } else {
        ids_for(caps.drop_first(), cap)
    }
}

/// Which plugins offer which capability.
pub struct PluginCapabilityRegistry {
    capabilities: Vec<(String, Vec<PluginId>)>,
}

impl PluginCapabilityRegistry {
    /// The capabilities with the ids of their plugins, in registration
    /// order.
    pub closed spec fn spec_capabilities(&self) -> Seq<(Seq<char>, Seq<Seq<char>>)> {
        Seq::new(
            self.capabilities@.len(),
            |i: int| (self.capabilities@[i].0@, self.capabilities@[i].1@.map_values(|p: PluginId| p@)),
        )
    }

    /// The ids of the plugins that offer `cap`.
    pub open spec fn spec_plugins_with(&self, cap: Seq<char>) -> Seq<Seq<char>> {
        ids_for(self.spec_capabilities(), cap)
    }

    /// An empty registry.
    pub fn new() -> (r: PluginCapabilityRegistry)
        ensures
            forall|cap: Seq<char>| r.spec_plugins_with(cap) == Seq::<Seq<char>>::empty(),
    {
        let r = PluginCapabilityRegistry { capabilities: Vec::new() };
        assert(r.spec_capabilities() =~= Seq::<(Seq<char>, Seq<Seq<char>>)>::empty());
        r
    }

    /// The position of capability `cap`, if it has plugins.
    fn position(&self, cap: &String) -> (r: Option<usize>)
        ensures
            r is None ==> forall|k: int| 0 <= k < self.capabilities@.len() ==> self.capabilities@[k].0@ != cap@,
            r matches Some(i) ==> i < self.capabilities@.len() && self.capabilities@[i as int].0@ == cap@ && forall|k: int|
                0 <= k < i ==> self.capabilities@[k].0@ != cap@,
    {
        let mut i: usize = 0;
        while i < self.capabilities.len()
            invariant
                0 <= i <= self.capabilities@.len(),
                forall|k: int| 0 <= k < i ==> self.capabilities@[k].0@ != cap@,
            decreases self.capabilities@.len() - i,
        {
            if self.capabilities[i].0 == *cap {
                return Some(i);
            }
            i = i + 1;
        }
        None
    }

    proof fn lemma_ids_for_first(caps: Seq<(Seq<char>, Seq<Seq<char>>)>, i: int, cap: Seq<char>)
        requires
            0 <= i <= caps.len(),
            forall|k: int| 0 <= k < i ==> caps[k].0 != cap,
        ensures
            ids_for(caps, cap) == ids_for(caps.subrange(i, caps.len() as int), cap),
        decreases i,
    {
        if i > 0 {
            Self::lemma_ids_for_first(caps.drop_first(), i - 1, cap);
            assert(caps.drop_first().subrange(i - 1, caps.drop_first().len() as int) =~= caps.subrange(i, caps.len() as int));
        } else {
            assert(caps.subrange(0, caps.len() as int) =~= caps);
        }
    }

    proof fn lemma_ids_for_update(caps: Seq<(Seq<char>, Seq<Seq<char>>)>, i: int, ids: Seq<Seq<char>>)
        requires
            0 <= i < caps.len(),
            forall|k: int| 0 <= k < i ==> caps[k].0 != caps[i].0,
        ensures
            ids_for(caps.update(i, (caps[i].0, ids)), caps[i].0) == ids,
            forall|c: Seq<char>| c != caps[i].0 ==> ids_for(caps.update(i, (caps[i].0, ids)), c) == ids_for(caps, c),
        decreases i,
    {
        let t = caps.update(i, (caps[i].0, ids));
        if i > 0 {
            Self::lemma_ids_for_update(caps.drop_first(), i - 1, ids);
            assert(t.drop_first() =~= caps.drop_first().update(i - 1, (caps[i].0, ids)));
        } else {
            assert(t.drop_first() =~= caps.drop_first());
        }
        assert forall|c: Seq<char>| c != caps[i].0 implies ids_for(t, c) == ids_for(caps, c) by {
            assert(t[0].0 == caps[0].0);
            if caps[0].0 != c {
                assert(ids_for(t, c) == ids_for(t.drop_first(), c));
                assert(ids_for(caps, c) == ids_for(caps.drop_first(), c));
            }
        }
    }

    proof fn lemma_ids_for_push(caps: Seq<(Seq<char>, Seq<Seq<char>>)>, entry: (Seq<char>, Seq<Seq<char>>))
        requires
            forall|k: int| 0 <= k < caps.len() ==> caps[k].0 != entry.0,
        ensures
            ids_for(caps.push(entry), entry.0) == entry.1,
            forall|c: Seq<char>| c != entry.0 ==> ids_for(caps.push(entry), c) == ids_for(caps, c),
        decreases caps.len(),
    {
        if caps.len() > 0 {
            Self::lemma_ids_for_push(caps.drop_first(), entry);
            assert(caps.push(entry).drop_first() =~= caps.drop_first().push(entry));
        } else {
            assert(caps.push(entry).drop_first() =~= Seq::<(Seq<char>, Seq<Seq<char>>)>::empty());
        }
        let t = caps.push(entry);
        assert forall|c: Seq<char>| c != entry.0 implies ids_for(t, c) == ids_for(caps, c) by {
            if caps.len() > 0 {
                assert(t[0] == caps[0]);
                if caps[0].0 != c {
                    assert(ids_for(t, c) == ids_for(t.drop_first(), c));
                    assert(ids_for(caps, c) == ids_for(caps.drop_first(), c));
                    assert(t.drop_first() =~= caps.drop_first().push(entry));
                }
            } else {
                assert(ids_for(t, c) == ids_for(t.drop_first(), c));
            }
        }
    }

    /// Records that plugin `plugin_id` offers `capability`.
    pub fn register_capability(&mut self, capability: &str, plugin_id: PluginId)
        ensures
            final(self).spec_plugins_with(capability@) == old(self).spec_plugins_with(capability@).push(plugin_id@),
            forall|c: Seq<char>| c != capability@ ==> final(self).spec_plugins_with(c) == old(self).spec_plugins_with(c),
    {
        let cap = String::from_str(capability);
        let ghost before = self.spec_capabilities();
        let ghost id_view = plugin_id@;
        match self.position(&cap) {
            Some(i) => {
                let (name, mut ids) = self.capabilities.remove(i);
                let ghost old_ids = ids@.map_values(|p: PluginId| p@);
                ids.push(plugin_id);
                assert(ids@.map_values(|p: PluginId| p@) =~= old_ids.push(id_view));
                self.capabilities.insert(i, (name, ids));
                proof {
                    assert(self.spec_capabilities() =~= before.update(i as int, (before[i as int].0, old_ids.push(id_view))));
                    Self::lemma_ids_for_first(before, i as int, capability@);
                    Self::lemma_ids_for_first(before, 0, capability@);
                    Self::lemma_ids_for_update(before, i as int, old_ids.push(id_view));
                    let rest = before.subrange(i as int, before.len() as int);
                    assert(rest[0] == before[i as int]);
                }
            },
            None => {
                let mut ids: Vec<PluginId> = Vec::new();
                ids.push(plugin_id);
                assert(ids@.map_values(|p: PluginId| p@) =~= seq![id_view]);
                self.capabilities.push((cap, ids));
                proof {
                    assert(self.spec_capabilities() =~= before.push((capability@, seq![id_view])));
                    Self::lemma_ids_for_push(before, (capability@, seq![id_view]));
                    assert(ids_for(before, capability@) == Seq::<Seq<char>>::empty()) by {
                        Self::lemma_ids_for_first(before, before.len() as int, capability@);
                    }
                    assert(Seq::<Seq<char>>::empty().push(id_view) =~= seq![id_view]);
                }
            },
        }
    }

    /// The ids of the plugins that offer `capability`.
    pub fn get_plugins_with_capability(&self, capability: &str) -> (r: Vec<PluginId>)
        ensures
            r@.map_values(|p: PluginId| p@) == self.spec_plugins_with(capability@),
    {
        let cap = String::from_str(capability);
        match self.position(&cap) {
            Some(i) => {
                proof {
                    let caps = self.spec_capabilities();
                    Self::lemma_ids_for_first(caps, i as int, capability@);
                    let rest = caps.subrange(i as int, caps.len() as int);
                    assert(rest[0] == caps[i as int]);
                }
                let ids = &self.capabilities[i].1;
                let mut out: Vec<PluginId> = Vec::new();
                let mut j: usize = 0;
                while j < ids.len()
                    invariant
                        0 <= j <= ids@.len(),
                        out@.map_values(|p: PluginId| p@) == ids@.map_values(|p: PluginId| p@).subrange(0, j as int),
                    decreases ids@.len() - j,
                {
                    let ghost before = out@.map_values(|p: PluginId| p@);
                    let id = PluginId::new(ids[j].0.clone());
                    assert(id@ == ids@[j as int]@);
                    out.push(id);
                    assert(out@.map_values(|p: PluginId| p@) =~= before.push(ids@[j as int]@));
                    j = j + 1;
                    assert(out@.map_values(|p: PluginId| p@) =~= ids@.map_values(|p: PluginId| p@).subrange(0, j as int));
                }
                assert(ids@.map_values(|p: PluginId| p@).subrange(0, j as int) =~= ids@.map_values(|p: PluginId| p@));
                out
            },
            None => {
                proof {
                    let caps = self.spec_capabilities();
                    Self::lemma_ids_for_first(caps, caps.len() as int, capability@);
                }
                let out: Vec<PluginId> = Vec::new();
                assert(out@.map_values(|p: PluginId| p@) =~= Seq::<Seq<char>>::empty());
                out
            },
        }
    }

    /// Whether plugin `plugin_id` offers `capability`.
    pub fn has_capability(&self, plugin_id: &PluginId, capability: &str) -> (r: bool)
        ensures
            r == self.spec_plugins_with(capability@).contains(plugin_id@),
    {
        let ids = self.get_plugins_with_capability(capability);
        let ghost view = ids@.map_values(|p: PluginId| p@);
        let mut j: usize = 0;
        while j < ids.len()
            invariant
                0 <= j <= ids@.len(),
                view == ids@.map_values(|p: PluginId| p@),
                view == self.spec_plugins_with(capability@),
                forall|k: int| 0 <= k < j ==> view[k] != plugin_id@,
            decreases ids@.len() - j,
        {
            if ids[j].same_as(plugin_id) {
                assert(view[j as int] == plugin_id@);
                assert(view.contains(plugin_id@));
                return true;
            }
            j = j + 1;
        }
        false
    }
}

/// What a plugin is given when it is initialised: its id and its settings.
pub struct PluginContext {
    pub id: PluginId,
    pub config: Vec<(String, String)>,
}

/// The interface every plugin implements. Nothing is assumed of what an
/// implementation does: the library records only what each call returned.
pub trait Plugin {
    fn metadata(&self) -> PluginMetadata;

    fn initialize(&mut self, context: &PluginContext) -> Result<(), PluginError>;

    fn start(&mut self) -> Result<(), PluginError>;

    fn stop(&mut self) -> Result<(), PluginError>;

    fn destroy(&mut self);

    /// The capability called `capability`, described as a text, if offered.
    fn get_capability(&self, capability: &str) -> Option<String>;

    fn execute_command(&self, command: &str, params: Vec<(String, String)>) -> Result<String, PluginError>;
}

/// A loaded plugin with its metadata and lifecycle status.
pub struct PluginInstance<P: Plugin> {
    metadata: PluginMetadata,
    plugin: P,
    status: PluginStatus,
    error: Option<String>,
}

impl<P: Plugin> PluginInstance<P> {
    pub closed spec fn spec_metadata(&self) -> PluginMetadata {
        self.metadata
    }

    pub closed spec fn spec_status(&self) -> PluginStatus {
        self.status
    }

    pub closed spec fn spec_error(&self) -> Option<String> {
        self.error
    }

    /// A freshly loaded plugin.
    pub fn new(metadata: PluginMetadata, plugin: P) -> (r: PluginInstance<P>)
        ensures
            r.spec_metadata() == metadata,
            r.spec_status() == PluginStatus::Loaded,
            r.spec_error() is None,
    {
        PluginInstance { metadata, plugin, status: PluginStatus::Loaded, error: None }
    }

    /// Initialises the plugin: it is enabled when its `initialize` succeeds,
    /// in error otherwise.
    pub fn initialize(&mut self) -> (r: Result<(), PluginError>)
        ensures
            final(self).spec_metadata() == old(self).spec_metadata(),
            final(self).spec_error() == old(self).spec_error(),
            r is Ok ==> final(self).spec_status() == PluginStatus::Enabled,
            r is Err ==> final(self).spec_status() == PluginStatus::Error,
    {
        self.status = PluginStatus::Error;
        let context = PluginContext { id: PluginId::new(self.metadata.id.0.clone()), config: Vec::new() };
        match self.plugin.initialize(&context) {
            Ok(()) => {
                self.status = PluginStatus::Enabled;
                Ok(())
            },
            Err(e) => Err(e),
        }
    }

    /// Starts an enabled plugin; one that is not enabled is refused with a
    /// runtime error. The status does not change.
    pub fn start(&mut self) -> (r: Result<(), PluginError>)
        ensures
            final(self).spec_metadata() == old(self).spec_metadata(),
            final(self).spec_error() == old(self).spec_error(),
            final(self).spec_status() == old(self).spec_status(),
            old(self).spec_status() != PluginStatus::Enabled ==> (r matches Err(e) && e is RuntimeError),
    {
        if self.status != PluginStatus::Enabled {
            return Err(PluginError::RuntimeError(String::from_str("the plugin must be initialised before it starts")));
        }
        self.plugin.start()
    }

    /// Stops the plugin; its status does not change.
    pub fn stop(&mut self) -> (r: Result<(), PluginError>)
        ensures
            final(self).spec_metadata() == old(self).spec_metadata(),
            final(self).spec_error() == old(self).spec_error(),
            final(self).spec_status() == old(self).spec_status(),
    {
        self.plugin.stop()
    }

    /// Destroys the plugin, which is then disabled.
    pub fn destroy(&mut self)
        ensures
            final(self).spec_metadata() == old(self).spec_metadata(),
            final(self).spec_error() == old(self).spec_error(),
            final(self).spec_status() == PluginStatus::Disabled,
    {
        self.plugin.destroy();
        self.status = PluginStatus::Disabled;
    }

    /// The plugin's metadata.
    pub fn metadata(&self) -> (r: &PluginMetadata)
        ensures
            *r == self.spec_metadata(),
    {
        &self.metadata
    }

    /// The plugin's lifecycle status.
    pub fn status(&self) -> (r: PluginStatus)
        ensures
            r == self.spec_status(),
    {
        self.status
    }

    /// Records an error: the plugin is then in error.
    pub fn set_error(&mut self, error: String)
        ensures
            final(self).spec_metadata() == old(self).spec_metadata(),
            final(self).spec_error() == Some(error),
            final(self).spec_status() == PluginStatus::Error,
    {
        self.error = Some(error);
        self.status = PluginStatus::Error;
    }

    /// The capability called `capability`, as the plugin describes it.
    pub fn get_capability(&self, capability: &str) -> (r: Option<String>) {
        self.plugin.get_capability(capability)
    }
}

/// The registered plugins, one for each id, in registration order.
pub struct PluginRegistry<P: Plugin> {
    plugins: Vec<PluginInstance<P>>,
}

impl<P: Plugin> PluginRegistry<P> {
    pub closed spec fn spec_plugins(&self) -> Seq<PluginInstance<P>> {
        self.plugins@
    }

    /// The ids of the registered plugins, in order.
    pub open spec fn spec_ids(&self) -> Seq<Seq<char>> {
        Seq::new(self.spec_plugins().len(), |i: int| self.spec_plugins()[i].spec_metadata().id@)
    }

    /// No id is registered twice.
    pub open spec fn wf(&self) -> bool {
        forall|i: int, j: int| 0 <= i < self.spec_ids().len() && 0 <= j < self.spec_ids().len() && i != j
            ==> self.spec_ids()[i] != self.spec_ids()[j]
    }

    /// An empty registry.
    pub fn new() -> (r: PluginRegistry<P>)
        ensures
            r.wf(),
            r.spec_plugins().len() == 0,
    {
        PluginRegistry { plugins: Vec::new() }
    }

    fn position(&self, id: &PluginId) -> (r: Option<usize>)
        ensures
            r is None ==> !self.spec_ids().contains(id@),
            r matches Some(i) ==> i < self.spec_plugins().len() && self.spec_ids()[i as int] == id@,
    {
        let mut i: usize = 0;
        while i < self.plugins.len()
            invariant
                0 <= i <= self.plugins@.len(),
                forall|k: int| 0 <= k < i ==> self.spec_ids()[k] != id@,
            decreases self.plugins@.len() - i,
        {
            if self.plugins[i].metadata.id.same_as(id) {
                return Some(i);
            }
            i = i + 1;
        }
        None
    }

    /// Registers a plugin under its id, replacing one registered under the
    /// same id.
    pub fn register(&mut self, instance: PluginInstance<P>)
        requires
            old(self).wf(),
        ensures
            final(self).wf(),
            final(self).spec_ids().contains(instance.spec_metadata().id@),
            old(self).spec_ids().contains(instance.spec_metadata().id@) ==> final(self).spec_ids() == old(self).spec_ids(),
            !old(self).spec_ids().contains(instance.spec_metadata().id@) ==> final(self).spec_ids() == old(self).spec_ids().push(
                instance.spec_metadata().id@,
            ),
    {
        let ghost id = instance.spec_metadata().id@;
        let ghost before = self.spec_ids();
        match self.position(&instance.metadata.id) {
            Some(i) => {
                self.plugins.remove(i);
                self.plugins.insert(i, instance);
                assert(self.spec_ids() =~= before);
                assert(self.spec_ids()[i as int] == id);
            },
            None => {
                self.plugins.push(instance);
                assert(self.spec_ids() =~= before.push(id));
                assert(self.spec_ids()[before.len() as int] == id);
            },
        }
    }

    /// Removes the plugin registered under `id`, if any.
    pub fn unregister(&mut self, id: &PluginId)
        requires
            old(self).wf(),
        ensures
            final(self).wf(),
            !final(self).spec_ids().contains(id@),
            forall|x: Seq<char>| x != id@ ==> (final(self).spec_ids().contains(x) <==> old(self).spec_ids().contains(x)),
    {
        let ghost before = self.spec_ids();
        match self.position(id) {
            Some(i) => {
                self.plugins.remove(i);
                proof {
                    let after = self.spec_ids();
                    assert(after =~= before.remove(i as int));
                    assert forall|a: int, b: int| 0 <= a < after.len() && 0 <= b < after.len() && a != b implies after[a]
                        != after[b] by {
                        let na = if a < i { a } else { a + 1 };
                        let nb = if b < i { b } else { b + 1 };
                        assert(after[a] == before[na] && after[b] == before[nb]);
                    }
                    assert forall|x: Seq<char>| x != id@ implies (after.contains(x) <==> before.contains(x)) by {
                        if before.contains(x) {
                            let k = choose|k: int| 0 <= k < before.len() && before[k] == x;
                            assert(k != i);
                            let m = if k < i { k } else { k - 1 };
                            assert(after[m] == x);
                        }
                        if after.contains(x) {
                            let m = choose|m: int| 0 <= m < after.len() && after[m] == x;
                            let k = if m < i { m } else { m + 1 };
                            assert(before[k] == x);
                        }
                    }
                    if after.contains(id@) {
                        let m = choose|m: int| 0 <= m < after.len() && after[m] == id@;
                        let k = if m < i { m } else { m + 1 };
                        assert(before[k] == id@ && k != i);
                    }
                }
            },
            None => {},
        }
    }

    /// The plugin registered under `id`.
    pub fn get(&self, id: &PluginId) -> (r: Option<&PluginInstance<P>>)
        ensures
            r is None <==> !self.spec_ids().contains(id@),
            r matches Some(p) ==> p.spec_metadata().id@ == id@ && self.spec_plugins().contains(*p),
    {
        match self.position(id) {
            Some(i) => {
                assert(self.spec_plugins()[i as int] == self.plugins@[i as int]);
                Some(&self.plugins[i])
            },
            None => None,
        }
    }

    /// Every registered plugin, in registration order.
    pub fn list(&self) -> (r: Vec<&PluginInstance<P>>)
        ensures
            r@.len() == self.spec_plugins().len(),
            forall|i: int| 0 <= i < r@.len() ==> *r@[i] == self.spec_plugins()[i],
    {
        let mut out: Vec<&PluginInstance<P>> = Vec::new();
        let mut i: usize = 0;
        while i < self.plugins.len()
            invariant
                0 <= i <= self.plugins@.len(),
                out@.len() == i,
                forall|k: int| 0 <= k < i ==> *out@[k] == self.plugins@[k],
            decreases self.plugins@.len() - i,
        {
            out.push(&self.plugins[i]);
            i = i + 1;
        }
        out
    }

    /// The plugins of kind `plugin_type`, in registration order.
    pub fn by_type(&self, plugin_type: PluginType) -> (r: Vec<&PluginInstance<P>>)
        ensures
            forall|i: int| 0 <= i < r@.len() ==> r@[i].spec_metadata().plugin_type == plugin_type
                && self.spec_plugins().contains(*r@[i]),
            forall|k: int| 0 <= k < self.spec_plugins().len() && self.spec_plugins()[k].spec_metadata().plugin_type == plugin_type
                ==> exists|i: int| 0 <= i < r@.len() && *r@[i] == self.spec_plugins()[k],
    {
        let mut out: Vec<&PluginInstance<P>> = Vec::new();
        let mut i: usize = 0;
        while i < self.plugins.len()
            invariant
                0 <= i <= self.plugins@.len(),
                forall|m: int| 0 <= m < out@.len() ==> out@[m].spec_metadata().plugin_type == plugin_type
                    && self.spec_plugins().contains(*out@[m]),
                forall|k: int| 0 <= k < i && self.spec_plugins()[k].spec_metadata().plugin_type == plugin_type
                    ==> exists|m: int| 0 <= m < out@.len() && *out@[m] == self.spec_plugins()[k],
            decreases self.plugins@.len() - i,
        {
            if self.plugins[i].metadata.plugin_type == plugin_type {
                let ghost before = out@;
                out.push(&self.plugins[i]);
                proof {
                    assert(self.spec_plugins().contains(self.plugins@[i as int]));
                    assert forall|k: int| 0 <= k <= i && self.spec_plugins()[k].spec_metadata().plugin_type == plugin_type
                        implies exists|m: int| 0 <= m < out@.len() && *out@[m] == self.spec_plugins()[k] by {
                        if k < i {
                            let m = choose|m: int| 0 <= m < before.len() && *before[m] == self.spec_plugins()[k];
                            assert(*out@[m] == self.spec_plugins()[k]);
                        } else {
                            assert(*out@[before.len() as int] == self.spec_plugins()[k]);
                        }
                    }
                }
            }
            i = i + 1;
        }
        out
    }

    /// Initialises and starts every plugin that is not enabled, stopping at
    /// the first failure. When all succeed, every plugin is enabled.
    pub fn initialize_all(&mut self) -> (r: Result<(), PluginError>)
        requires
            old(self).wf(),
        ensures
            final(self).wf(),
            final(self).spec_ids() == old(self).spec_ids(),
            r is Ok ==> forall|i: int| 0 <= i < final(self).spec_plugins().len() ==> #[trigger] final(self).spec_plugins()[i].spec_status()
                == PluginStatus::Enabled,
    {
        let ghost ids = self.spec_ids();
        let mut i: usize = 0;
        while i < self.plugins.len()
            invariant
                0 <= i <= self.plugins@.len(),
                self.spec_ids() == ids,
                ids == old(self).spec_ids(),
                self.wf(),
                forall|k: int| 0 <= k < i ==> #[trigger] self.spec_plugins()[k].spec_status() == PluginStatus::Enabled,
            decreases self.plugins@.len() - i,
        {
            if self.plugins[i].status != PluginStatus::Enabled {
                let ghost before = self.plugins@;
                let mut instance = self.plugins.remove(i);
                let a = instance.initialize();
                let b = match a {
                    Ok(()) => instance.start(),
                    Err(e) => Err(e),
                };
                self.plugins.insert(i, instance);
                assert(self.spec_ids() =~= ids);
                assert forall|k: int| 0 <= k < i implies #[trigger] self.spec_plugins()[k].spec_status() == PluginStatus::Enabled by {
                    assert(self.plugins@[k] == before[k]);
                }
                match b {
                    Ok(()) => {},
                    Err(e) => {
                        return Err(e);
                    },
                }
            }
            i = i + 1;
        }
        Ok(())
    }

    /// Starts every enabled plugin, stopping at the first failure.
    pub fn start_all(&mut self) -> (r: Result<(), PluginError>)
        requires
            old(self).wf(),
        ensures
            final(self).wf(),
            final(self).spec_ids() == old(self).spec_ids(),
            forall|i: int| 0 <= i < final(self).spec_plugins().len() ==> #[trigger] final(self).spec_plugins()[i].spec_status()
                == old(self).spec_plugins()[i].spec_status(),
    {
        let ghost ids = self.spec_ids();
        let ghost start = self.plugins@;
        let mut i: usize = 0;
        while i < self.plugins.len()
            invariant
                0 <= i <= self.plugins@.len(),
                self.spec_ids() == ids,
                ids == old(self).spec_ids(),
                self.wf(),
                self.plugins@.len() == start.len(),
                start == old(self).spec_plugins(),
                forall|k: int| 0 <= k < self.plugins@.len() ==> #[trigger] self.plugins@[k].spec_status() == start[k].spec_status(),
            decreases self.plugins@.len() - i,
        {
            if self.plugins[i].status == PluginStatus::Enabled {
                let ghost before = self.plugins@;
                let mut instance = self.plugins.remove(i);
                let b = instance.start();
                self.plugins.insert(i, instance);
                assert(self.spec_ids() =~= ids);
                assert forall|k: int| 0 <= k < self.plugins@.len() implies #[trigger] self.plugins@[k].spec_status()
                    == start[k].spec_status() by {
                    if k != i {
                        assert(self.plugins@[k] == before[k]);
                    }
                }
                match b {
                    Ok(()) => {},
                    Err(e) => {
                        return Err(e);
                    },
                }
            }
            i = i + 1;
        }
        Ok(())
    }

    /// Stops every plugin, stopping at the first failure; no status changes.
    pub fn stop_all(&mut self) -> (r: Result<(), PluginError>)
        requires
            old(self).wf(),
        ensures
            final(self).wf(),
            final(self).spec_ids() == old(self).spec_ids(),
            forall|i: int| 0 <= i < final(self).spec_plugins().len() ==> #[trigger] final(self).spec_plugins()[i].spec_status()
                == old(self).spec_plugins()[i].spec_status(),
    {
        let ghost ids = self.spec_ids();
        let ghost start = self.plugins@;
        let mut i: usize = 0;
        while i < self.plugins.len()
            invariant
                0 <= i <= self.plugins@.len(),
                self.spec_ids() == ids,
                ids == old(self).spec_ids(),
                self.wf(),
                self.plugins@.len() == start.len(),
                start == old(self).spec_plugins(),
                forall|k: int| 0 <= k < self.plugins@.len() ==> #[trigger] self.plugins@[k].spec_status() == start[k].spec_status(),
            decreases self.plugins@.len() - i,
        {
            let ghost before = self.plugins@;
            let mut instance = self.plugins.remove(i);
            let b = instance.stop();
            self.plugins.insert(i, instance);
            assert(self.spec_ids() =~= ids);
            assert forall|k: int| 0 <= k < self.plugins@.len() implies #[trigger] self.plugins@[k].spec_status()
                == start[k].spec_status() by {
                if k != i {
                    assert(self.plugins@[k] == before[k]);
                }
            }
            match b {
                Ok(()) => {},
                Err(e) => {
                    return Err(e);
                },
            }
            i = i + 1;
        }
        Ok(())
    }

    /// Destroys every plugin; all are then disabled.
    pub fn destroy_all(&mut self)
        requires
            old(self).wf(),
        ensures
            final(self).wf(),
            final(self).spec_ids() == old(self).spec_ids(),
            forall|i: int| 0 <= i < final(self).spec_plugins().len() ==> #[trigger] final(self).spec_plugins()[i].spec_status()
                == PluginStatus::Disabled,
    {
        let ghost ids = self.spec_ids();
        let mut i: usize = 0;
        while i < self.plugins.len()
            invariant
                0 <= i <= self.plugins@.len(),
                self.spec_ids() == ids,
                ids == old(self).spec_ids(),
                self.wf(),
                forall|k: int| 0 <= k < i ==> #[trigger] self.spec_plugins()[k].spec_status() == PluginStatus::Disabled,
            decreases self.plugins@.len() - i,
        {
            let ghost before = self.plugins@;
            let mut instance = self.plugins.remove(i);
            instance.destroy();
            self.plugins.insert(i, instance);
            assert(self.spec_ids() =~= ids);
            assert forall|k: int| 0 <= k < i implies #[trigger] self.spec_plugins()[k].spec_status() == PluginStatus::Disabled by {
                assert(self.plugins@[k] == before[k]);
            }
            i = i + 1;
        }
    }
}

/// The plugins and the capabilities they offer; a plugin offers the
/// capability named after its kind.
pub struct PluginManager<P: Plugin> {
    registry: PluginRegistry<P>,
    capabilities: PluginCapabilityRegistry,
}

impl<P: Plugin> PluginManager<P> {
    pub closed spec fn spec_registry(&self) -> PluginRegistry<P> {
        self.registry
    }

    pub closed spec fn spec_capabilities(&self) -> PluginCapabilityRegistry {
        self.capabilities
    }

    pub open spec fn wf(&self) -> bool {
        self.spec_registry().wf()
    }

    /// A manager with no plugins.
    pub fn new() -> (r: PluginManager<P>)
        ensures
            r.wf(),
            r.spec_registry().spec_plugins().len() == 0,
            forall|cap: Seq<char>| r.spec_capabilities().spec_plugins_with(cap) == Seq::<Seq<char>>::empty(),
    {
        PluginManager { registry: PluginRegistry::new(), capabilities: PluginCapabilityRegistry::new() }
    }

    /// Registers a plugin, and its id under the capability named after its
    /// kind.
    pub fn register_plugin(&mut self, plugin: PluginInstance<P>)
        requires
            old(self).wf(),
        ensures
            final(self).wf(),
            final(self).spec_registry().spec_ids().contains(plugin.spec_metadata().id@),
            final(self).spec_capabilities().spec_plugins_with(plugin.spec_metadata().plugin_type.spec_name())
                == old(self).spec_capabilities().spec_plugins_with(plugin.spec_metadata().plugin_type.spec_name()).push(
                plugin.spec_metadata().id@,
            ),
    {
        let kind = plugin.metadata.plugin_type;
        let id = PluginId::new(plugin.metadata.id.0.clone());
        self.capabilities.register_capability(kind.as_str(), id);
        self.registry.register(plugin);
    }

    /// Initialises and starts every plugin that is not enabled.
    pub fn initialize_all(&mut self) -> (r: Result<(), PluginError>)
        requires
            old(self).wf(),
        ensures
            final(self).wf(),
            final(self).spec_registry().spec_ids() == old(self).spec_registry().spec_ids(),
            r is Ok ==> forall|i: int| 0 <= i < final(self).spec_registry().spec_plugins().len()
                ==> #[trigger] final(self).spec_registry().spec_plugins()[i].spec_status() == PluginStatus::Enabled,
    {
        self.registry.initialize_all()
    }

    /// Starts every enabled plugin.
    pub fn start_all(&mut self) -> (r: Result<(), PluginError>)
        requires
            old(self).wf(),
        ensures
            final(self).wf(),
            final(self).spec_registry().spec_ids() == old(self).spec_registry().spec_ids(),
    {
        self.registry.start_all()
    }

    /// Stops every plugin.
    pub fn stop_all(&mut self) -> (r: Result<(), PluginError>)
        requires
            old(self).wf(),
        ensures
            final(self).wf(),
            final(self).spec_registry().spec_ids() == old(self).spec_registry().spec_ids(),
    {
        self.registry.stop_all()
    }

    /// Destroys every plugin.
    pub fn destroy_all(&mut self)
        requires
            old(self).wf(),
        ensures
            final(self).wf(),
            final(self).spec_registry().spec_ids() == old(self).spec_registry().spec_ids(),
            forall|i: int| 0 <= i < final(self).spec_registry().spec_plugins().len()
                ==> #[trigger] final(self).spec_registry().spec_plugins()[i].spec_status() == PluginStatus::Disabled,
    {
        self.registry.destroy_all()
    }

    /// The plugin registry.
    pub fn registry(&self) -> (r: &PluginRegistry<P>)
        ensures
            *r == self.spec_registry(),
    {
        &self.registry
    }

    /// The capability registry.
    pub fn capabilities(&self) -> (r: &PluginCapabilityRegistry)
        ensures
            *r == self.spec_capabilities(),
    {
        &self.capabilities
    }

    /// The plugins of kind `plugin_type`.
    pub fn plugins_by_type(&self, plugin_type: PluginType) -> (r: Vec<&PluginInstance<P>>)
        ensures
            forall|i: int| 0 <= i < r@.len() ==> r@[i].spec_metadata().plugin_type == plugin_type
                && self.spec_registry().spec_plugins().contains(*r@[i]),
    {
        self.registry.by_type(plugin_type)
    }
}

} // verus!
