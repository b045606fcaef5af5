//! Load only requested font data.
//!
//! A [`DataRequest`] says which parts of a font package a load reads. A custom layer
//! filter is a predicate of the caller's: the request records that one is set, and the
//! caller hands its verdict on a layer to [`LayerFilter::should_load`].

use vstd::prelude::*;

use crate::path::{same_path, spec_same_path};

verus! {

/// The directory of the default layer.
pub const DEFAULT_LAYER_DIR: &'static str = "glyphs";

/// A type describing which layers to load.
#[derive(Debug, Clone, Copy, PartialEq, Eq, Structural)]
pub struct LayerFilter {
    /// Load every layer.
    pub all: bool,
    /// Load the default layer.
    pub load_default: bool,
    /// A custom filter decides on the layers the first two do not take.
    pub custom: bool,
}

impl LayerFilter {
    /// A filter that loads every layer if `b`, and no layer otherwise.
    pub fn from_bool(b: bool) -> (res: Self)
        ensures
            res == (LayerFilter { all: b, load_default: false, custom: false }),
    {
        LayerFilter { all: b, load_default: false, custom: false }
    }

    /// Whether the layer with this name and directory is loaded. `custom_verdict` is
    /// what the custom filter, where one is set, answers for the layer.
    pub fn should_load(&self, name: &str, path: &str, custom_verdict: bool) -> (res: bool)
        ensures
            res == (self.all || (self.load_default && spec_same_path(path@, DEFAULT_LAYER_DIR@))
                || (self.custom && custom_verdict)),
    {
        if self.all {
            return true;
        }
        if self.load_default && same_path(path, DEFAULT_LAYER_DIR) {
            return true;
        }
        self.custom && custom_verdict
    }

    /// `true` if this filter includes the default layer.
    pub fn includes_default_layer(&self) -> (res: bool)
        ensures
            res == (self.all || self.load_default),
    {
        self.all || self.load_default
    }
}

impl Default for LayerFilter {
    fn default() -> (res: Self)
        ensures
            res == (LayerFilter { all: true, load_default: false, custom: false }),
    {
        LayerFilter { all: true, load_default: false, custom: false }
    }
}

/// A type that describes which components of a UFO should be loaded.
///
/// By default, all components of the UFO file are loaded; a request can leave out
/// any of them.
#[derive(Debug, Clone, Copy, PartialEq, Eq, Structural)]
pub struct DataRequest {
    /// The layers to load.
    pub layers: LayerFilter,
    /// Load parsed lib.plist data
    pub lib: bool,
    /// Load parsed groups.plist data
    pub groups: bool,
    /// Load parsed kerning.plist data
    pub kerning: bool,
    /// Load Adobe .fea format feature file data
    pub features: bool,
    /// Load data
    pub data: bool,
    /// Load images
    pub images: bool,
}

/// The request in which every part is `b`, and no layer filter is set.
pub open spec fn spec_uniform_request(b: bool) -> DataRequest {
    DataRequest {
        layers: LayerFilter { all: b, load_default: false, custom: false },
        lib: b,
        groups: b,
        kerning: b,
        features: b,
        data: b,
        images: b,
    }
}

impl DataRequest {
    /// A request in which every part is `b`.
    pub fn from_bool(b: bool) -> (res: Self)
        ensures
            res == spec_uniform_request(b),
    {
        DataRequest {
            layers: LayerFilter::from_bool(b),
            lib: b,
            groups: b,
            kerning: b,
            features: b,
            data: b,
            images: b,
        }
    }

    /// Returns a [`DataRequest`] requesting all UFO data.
    pub fn all() -> (res: Self)
        ensures
            res == spec_uniform_request(true),
    {
        DataRequest::from_bool(true)
    }

    /// Returns a [`DataRequest`] requesting no UFO data.
    pub fn none() -> (res: Self)
        ensures
            res == spec_uniform_request(false),
    {
        DataRequest::from_bool(false)
    }

    /// Request that returned UFO data include layers and their glyph data. The option
    /// is ignored once [`Self::default_layer`] or [`Self::filter_layers`] is set.
    pub fn layers(self, b: bool) -> (res: Self)
        ensures
            res == (DataRequest {
                layers: LayerFilter {
                    all: if self.layers.load_default || self.layers.custom {
                        self.layers.all
                    } else {
                        b
                    },
                    ..self.layers
                },
                ..self
            }),
    {
        let mut s = self;
        if !s.layers.load_default && !s.layers.custom {
            s.layers.all = b;
        }
        s
    }

    /// Request to only load the default layer. If set, the [`Self::layers`] option is
    /// ignored.
    pub fn default_layer(self, b: bool) -> (res: Self)
        ensures
            res == (DataRequest {
                layers: LayerFilter { all: false, load_default: b, ..self.layers },
                ..self
            }),
    {
        let mut s = self;
        s.layers.load_default = b;
        s.layers.all = false;
        s
    }

    /// Request to load a subset of layers chosen by a custom filter of the caller's.
    /// It overrides the [`Self::layers`] option.
    pub fn filter_layers(self) -> (res: Self)
        ensures
            res == (DataRequest {
                layers: LayerFilter { all: false, custom: true, ..self.layers },
                ..self
            }),
    {
        let mut s = self;
        s.layers.custom = true;
        s.layers.all = false;
        s
    }

    /// Request that returned UFO data include <lib> sections.
    pub fn lib(self, b: bool) -> (res: Self)
        ensures
            res == (DataRequest { lib: b, ..self }),
    {
        let mut s = self;
        s.lib = b;
        s
    }

    /// Request that returned UFO data include parsed `groups.plist`.
    pub fn groups(self, b: bool) -> (res: Self)
        ensures
            res == (DataRequest { groups: b, ..self }),
    {
        let mut s = self;
        s.groups = b;
        s
    }

    /// Request that returned UFO data include parsed `kerning.plist`.
    pub fn kerning(self, b: bool) -> (res: Self)
        ensures
            res == (DataRequest { kerning: b, ..self }),
    {
        let mut s = self;
        s.kerning = b;
        s
    }

    /// Request that returned UFO data include OpenType Layout features in Adobe .fea
    /// format.
    pub fn features(self, b: bool) -> (res: Self)
        ensures
            res == (DataRequest { features: b, ..self }),
    {
        let mut s = self;
        s.features = b;
        s
    }

    /// Request that returned UFO data include data.
    pub fn data(self, b: bool) -> (res: Self)
        ensures
            res == (DataRequest { data: b, ..self }),
    {
        let mut s = self;
        s.data = b;
        s
    }

    /// Request that returned UFO data include images.
    pub fn images(self, b: bool) -> (res: Self)
        ensures
            res == (DataRequest { images: b, ..self }),
    {
        let mut s = self;
        s.images = b;
        s
    }
}

impl Default for DataRequest {
    fn default() -> (res: Self)
        ensures
            res == spec_uniform_request(true),
    {
        DataRequest::from_bool(true)
    }
}

} // verus!
