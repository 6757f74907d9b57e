//! Static plugin metadata: what a plugin declares about itself once, at
//! construction, and never mutates. Format adapters read these descriptors
//! when they present the plugin to a host.

use vstd::prelude::*;

verus! {

/// Human-readable facts about a plugin, built up fluently and then only
/// read.
#[derive(Clone)]
pub struct PluginInfo {
    name: String,
    vendor: String,
    url: String,
    email: String,
    has_editor: bool,
}

impl PluginInfo {
    pub closed spec fn spec_name(&self) -> Seq<char> {
        self.name@
    }

    pub closed spec fn spec_vendor(&self) -> Seq<char> {
        self.vendor@
    }

    pub closed spec fn spec_url(&self) -> Seq<char> {
        self.url@
    }

    pub closed spec fn spec_email(&self) -> Seq<char> {
        self.email@
    }

    pub closed spec fn spec_has_editor(&self) -> bool {
        self.has_editor
    }

    /// Empty name, vendor, url and email; no editor.
    pub fn new() -> (info: PluginInfo)
        ensures
            info.spec_name() == Seq::<char>::empty(),
            info.spec_vendor() == Seq::<char>::empty(),
            info.spec_url() == Seq::<char>::empty(),
            info.spec_email() == Seq::<char>::empty(),
            !info.spec_has_editor(),
    {
        PluginInfo {
            name: String::new(),
            vendor: String::new(),
            url: String::new(),
            email: String::new(),
            has_editor: false,
        }
    }

    pub fn name(self, name: &str) -> (r: Self)
        ensures
            r.spec_name() == name@,
            r.spec_vendor() == self.spec_vendor(),
            r.spec_url() == self.spec_url(),
            r.spec_email() == self.spec_email(),
            r.spec_has_editor() == self.spec_has_editor(),
    {
        let mut info = self;
        info.name = name.to_owned();
        info
    }

    pub fn vendor(self, vendor: &str) -> (r: Self)
        ensures
            r.spec_vendor() == vendor@,
            r.spec_name() == self.spec_name(),
            r.spec_url() == self.spec_url(),
            r.spec_email() == self.spec_email(),
            r.spec_has_editor() == self.spec_has_editor(),
    {
        let mut info = self;
        info.vendor = vendor.to_owned();
        info
    }

    pub fn url(self, url: &str) -> (r: Self)
        ensures
            r.spec_url() == url@,
            r.spec_name() == self.spec_name(),
            r.spec_vendor() == self.spec_vendor(),
            r.spec_email() == self.spec_email(),
            r.spec_has_editor() == self.spec_has_editor(),
    {
        let mut info = self;
        info.url = url.to_owned();
        info
    }

    pub fn email(self, email: &str) -> (r: Self)
        ensures
            r.spec_email() == email@,
            r.spec_name() == self.spec_name(),
            r.spec_vendor() == self.spec_vendor(),
            r.spec_url() == self.spec_url(),
            r.spec_has_editor() == self.spec_has_editor(),
    {
        let mut info = self;
        info.email = email.to_owned();
        info
    }

    pub fn has_editor(self, has_editor: bool) -> (r: Self)
        ensures
            r.spec_has_editor() == has_editor,
            r.spec_name() == self.spec_name(),
            r.spec_vendor() == self.spec_vendor(),
            r.spec_url() == self.spec_url(),
            r.spec_email() == self.spec_email(),
    {
        let mut info = self;
        info.has_editor = has_editor;
        info
    }

    pub fn get_name(&self) -> (r: &str)
        ensures
            r@ == self.spec_name(),
    {
        self.name.as_str()
    }

    pub fn get_vendor(&self) -> (r: &str)
        ensures
            r@ == self.spec_vendor(),
    {
        self.vendor.as_str()
    }

    pub fn get_url(&self) -> (r: &str)
        ensures
            r@ == self.spec_url(),
    {
        self.url.as_str()
    }

    pub fn get_email(&self) -> (r: &str)
        ensures
            r@ == self.spec_email(),
    {
        self.email.as_str()
    }

    pub fn get_has_editor(&self) -> (r: bool)
        ensures
            r == self.spec_has_editor(),
    {
        self.has_editor
    }
}

/// A plugin-supplied editor; the core never looks inside one.
pub trait Editor: Sized {
}

/// A 128-bit class identifier, as four words.
pub struct Uuid(pub u32, pub u32, pub u32, pub u32);

/// Identification a host of the vst3 kind asks for.
pub struct Vst3Info {
    pub class_id: Uuid,
}

/// Implemented by plugins that can be presented to such a host.
pub trait Vst3Plugin {
    fn vst3_info() -> Vst3Info;
}

/// Identification a host of the clap kind asks for.
pub struct ClapInfo {
    pub id: String,
}

/// Implemented by plugins that can be presented to such a host.
pub trait ClapPlugin {
    fn clap_info() -> ClapInfo;
}

} // verus!
