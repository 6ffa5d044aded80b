//! The operations on icons, and what they take and hand back.

use vstd::prelude::*;
use crate::icon::Icon;
use crate::raster::Raster;

pub mod cutters;
pub mod error;
pub mod format_converter;

verus! {

/// Whether an operation also hands back its intermediate images.
#[derive(Clone, Copy, Debug, PartialEq, Eq, Structural)]
pub enum OperationMode {
    Standard,
    Debug,
}

/// The decoded input of an operation.
#[derive(Debug, PartialEq, Eq)]
pub enum InputIcon {
    DynamicImage(Raster),
    Dmi(Icon),
}

/// An image that an operation produced.
#[derive(Debug, PartialEq, Eq)]
pub enum OutputImage {
    Png(Raster),
    Dmi(Icon),
}

impl OutputImage {
    /// The file extension that goes with the kind of image.
    pub fn extension(&self) -> (r: &'static str)
        ensures
            r@ == match self {
                OutputImage::Png(_) => "png"@,
                OutputImage::Dmi(_) => "dmi"@,
            },
    {
        match self {
            OutputImage::Png(_) => "png",
            OutputImage::Dmi(_) => "dmi",
        }
    }
}

/// A configuration text that an operation produced, for an image of the
/// kind that the variant names.
#[derive(Debug, PartialEq, Eq)]
pub enum OutputText {
    PngConfig(String),
    DmiConfig(String),
}

impl OutputText {
    /// The file extension of a configuration text.
    pub fn extension(&self) -> (r: &'static str)
        ensures
            r@ == "toml"@,
    {
        "toml"
    }
}

/// An image with a hint at the directory and at the file name under which
/// it is to be stored.
#[derive(Debug, PartialEq, Eq)]
pub struct NamedIcon {
    pub path_hint: Option<String>,
    pub name_hint: Option<String>,
    pub image: OutputImage,
}

impl NamedIcon {
    pub fn new(path_hint: &str, name_hint: &str, image: OutputImage) -> (r: NamedIcon)
        ensures
            r.path_hint matches Some(path) && path@ == path_hint@,
            r.name_hint matches Some(name) && name@ == name_hint@,
            r.image == image,
    {
        NamedIcon {
            path_hint: Some(path_hint.to_owned()),
            name_hint: Some(name_hint.to_owned()),
            image,
        }
    }

    pub fn from_icon(icon: Icon) -> (r: NamedIcon)
        ensures
            r == (NamedIcon { path_hint: None, name_hint: None, image: OutputImage::Dmi(icon) }),
    {
        NamedIcon { path_hint: None, name_hint: None, image: OutputImage::Dmi(icon) }
    }
}

/// What an operation hands back.
#[derive(Debug, PartialEq, Eq)]
pub enum ProcessorPayload {
    Single(Box<OutputImage>),
    SingleNamed(Box<NamedIcon>),
    MultipleNamed(Vec<NamedIcon>),
    ConfigWrapped(Box<ProcessorPayload>, Box<OutputText>),
}

impl ProcessorPayload {
    pub fn from_icon(icon: Icon) -> (r: ProcessorPayload)
        ensures
            r == ProcessorPayload::Single(Box::new(OutputImage::Dmi(icon))),
    {
        ProcessorPayload::Single(Box::new(OutputImage::Dmi(icon)))
    }

    pub fn from_image(image: Raster) -> (r: ProcessorPayload)
        ensures
            r == ProcessorPayload::Single(Box::new(OutputImage::Png(image))),
    {
        ProcessorPayload::Single(Box::new(OutputImage::Png(image)))
    }

    /// Pairs a payload with the configuration text that belongs to it.
    pub fn wrap_png_config(payload: ProcessorPayload, text: String) -> (r: ProcessorPayload)
        ensures
            r == ProcessorPayload::ConfigWrapped(
                Box::new(payload),
                Box::new(OutputText::PngConfig(text)),
            ),
    {
        ProcessorPayload::ConfigWrapped(Box::new(payload), Box::new(OutputText::PngConfig(text)))
    }
}

} // verus!
