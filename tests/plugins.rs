use boomaga::loader::{file_name, file_stem, DynamicPluginLoader, PluginLoader};
use boomaga::job::JobId;
use boomaga::plugin::{
    Plugin, PluginCapabilityRegistry, PluginContext, PluginError, PluginId, PluginInstance, PluginManager,
    PluginMetadata, PluginRegistry, PluginStatus, PluginType,
};

struct Recorder {
    metadata: PluginMetadata,
    initialized: bool,
    fail_start: bool,
}

impl Plugin for Recorder {
    fn metadata(&self) -> PluginMetadata {
        self.metadata.clone()
    }

    fn initialize(&mut self, _context: &PluginContext) -> Result<(), PluginError> {
        self.initialized = true;
        Ok(())
    }

    fn start(&mut self) -> Result<(), PluginError> {
        if self.fail_start {
            Err(PluginError::RuntimeError("no".to_string()))
        } else {
            Ok(())
        }
    }

    fn stop(&mut self) -> Result<(), PluginError> {
        Ok(())
    }

    fn destroy(&mut self) {
        self.initialized = false;
    }

    fn get_capability(&self, capability: &str) -> Option<String> {
        if capability == "test_capability" {
            Some("test_data".to_string())
        } else {
            None
        }
    }

    fn execute_command(&self, _command: &str, _params: Vec<(String, String)>) -> Result<String, PluginError> {
        Ok("done".to_string())
    }
}

fn metadata(id: &str, plugin_type: PluginType) -> PluginMetadata {
    PluginMetadata {
        id: PluginId::new(id.to_string()),
        name: id.to_string(),
        version: "1.0.0".to_string(),
        description: String::new(),
        author: String::new(),
        license: "MIT".to_string(),
        plugin_type,
        entry_point: "init".to_string(),
    }
}

fn instance(id: &str, plugin_type: PluginType, fail_start: bool) -> PluginInstance<Recorder> {
    let m = metadata(id, plugin_type);
    PluginInstance::new(m.clone(), Recorder { metadata: m, initialized: false, fail_start })
}

#[test]
fn plugin_lifecycle() {
    let mut p = instance("a", PluginType::Utility, false);
    assert_eq!(p.status(), PluginStatus::Loaded);
    assert!(matches!(p.start(), Err(PluginError::RuntimeError(_))));
    p.initialize().unwrap();
    assert_eq!(p.status(), PluginStatus::Enabled);
    p.start().unwrap();
    p.stop().unwrap();
    assert_eq!(p.get_capability("test_capability"), Some("test_data".to_string()));
    p.set_error("bad".to_string());
    assert_eq!(p.status(), PluginStatus::Error);
    p.destroy();
    assert_eq!(p.status(), PluginStatus::Disabled);
    assert_eq!(p.metadata().id.as_str(), "a");
}

#[test]
fn registry_keeps_one_plugin_per_id() {
    let mut r: PluginRegistry<Recorder> = PluginRegistry::new();
    r.register(instance("a", PluginType::Layout, false));
    r.register(instance("b", PluginType::Utility, false));
    r.register(instance("a", PluginType::Layout, false));
    assert_eq!(r.list().len(), 2);
    assert_eq!(r.by_type(PluginType::Layout).len(), 1);
    r.initialize_all().unwrap();
    assert!(r.list().iter().all(|p| p.status() == PluginStatus::Enabled));
    r.stop_all().unwrap();
    r.destroy_all();
    assert!(r.list().iter().all(|p| p.status() == PluginStatus::Disabled));
    r.unregister(&PluginId::new("a".to_string()));
    assert!(r.get(&PluginId::new("a".to_string())).is_none());
    assert!(r.get(&PluginId::new("b".to_string())).is_some());
}

#[test]
fn initialize_all_stops_at_a_failure() {
    let mut r: PluginRegistry<Recorder> = PluginRegistry::new();
    r.register(instance("a", PluginType::Layout, true));
    assert!(r.initialize_all().is_err());
}

#[test]
fn capabilities_by_name() {
    let mut c = PluginCapabilityRegistry::new();
    c.register_capability("print", PluginId::new("a".to_string()));
    c.register_capability("print", PluginId::new("b".to_string()));
    c.register_capability("scan", PluginId::new("a".to_string()));
    let ids: Vec<String> = c.get_plugins_with_capability("print").iter().map(|p| p.as_str().to_string()).collect();
    assert_eq!(ids, vec!["a".to_string(), "b".to_string()]);
    assert!(c.has_capability(&PluginId::new("b".to_string()), "print"));
    assert!(!c.has_capability(&PluginId::new("b".to_string()), "scan"));
    assert!(c.get_plugins_with_capability("none").is_empty());
}

#[test]
fn manager_registers_kind_as_capability() {
    let mut m: PluginManager<Recorder> = PluginManager::new();
    m.register_plugin(instance("a", PluginType::PrintHook, false));
    assert!(m.capabilities().has_capability(&PluginId::new("a".to_string()), "print-hook"));
    assert_eq!(m.plugins_by_type(PluginType::PrintHook).len(), 1);
    m.initialize_all().unwrap();
    m.start_all().unwrap();
    m.stop_all().unwrap();
    m.destroy_all();
    assert_eq!(m.registry().list()[0].status(), PluginStatus::Disabled);
}

#[test]
fn plugin_id_from_uuid() {
    let id = PluginId::from_uuid(1);
    assert_eq!(id.as_str(), JobId(1).to_string());
    assert_eq!(id.as_str(), "00000000-0000-0000-0000-000000000001");
}

#[test]
fn loaders_describe_library_files() {
    assert_eq!(file_name("/usr/lib/boomaga/plugins/booklet.so"), Some("booklet.so"));
    assert_eq!(file_name("/usr/lib/"), None);
    assert_eq!(file_name("plain"), Some("plain"));
    assert_eq!(file_stem("booklet.so"), "booklet");
    assert_eq!(file_stem(".hidden"), ".hidden");
    assert_eq!(file_stem("a.tar.gz"), "a.tar");
    let mut loader = PluginLoader::new(vec!["/a".to_string()]);
    let m = loader.load_from_file("/a/nup.so").unwrap();
    assert_eq!(m.id.as_str(), "plugin_nup.so");
    assert_eq!(m.plugin_type, PluginType::Utility);
    assert!(matches!(loader.load_from_file("/a/"), Err(PluginError::NotFound(_))));
    loader.set_plugin_dirs(vec!["/b".to_string(), "/c".to_string()]);
    assert_eq!(loader.plugin_dirs().len(), 2);
    let mut dynamic = DynamicPluginLoader::new();
    dynamic.register("/x/imposer.so".to_string());
    assert_eq!(dynamic.plugin_paths().len(), 1);
    let d = dynamic.load("/x/imposer.so").unwrap();
    assert_eq!(d.id.as_str(), "dynamic_plugin_imposer.so");
    assert_eq!(d.name, "imposer");
    assert_eq!(d.plugin_type, PluginType::Custom);
}
