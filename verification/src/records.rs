//! The records that a decoded database is made of, and their mathematical
//! views. A view keeps every field and replaces each string by its sequence
//! of characters, so that contracts can say what a record holds.

use crate::defs::{Catsize, DBVersion, MASK_IN_PROFILE, MASK_MARKED};
use crate::string_hash::StringHash;
use vstd::prelude::*;
use vstd::string::StringExecFns;

verus! {

/// What kind of fragment a part of a version string is.
#[derive(Debug, Clone, Copy, PartialEq, Eq, Structural)]
pub enum PartType {
    Garbage,
    Alpha,
    Beta,
    Pre,
    Rc,
    Revision,
    InterRev,
    Patch,
    Character,
    Primary,
    First,
}

impl PartType {
    /// The number that stands for this kind in the database.
    pub open spec fn code(self) -> nat {
        match self {
            PartType::Garbage => 0,
            PartType::Alpha => 1,
            PartType::Beta => 2,
            PartType::Pre => 3,
            PartType::Rc => 4,
            PartType::Revision => 5,
            PartType::InterRev => 6,
            PartType::Patch => 7,
            PartType::Character => 8,
            PartType::Primary => 9,
            PartType::First => 10,
        }
    }

    /// The kind that the number `v` stands for: the numbers 1 to 10 each name
    /// a kind, every other number is garbage.
    pub open spec fn of_code(v: nat) -> PartType {
        if v == 1 {
            PartType::Alpha
        } else if v == 2 {
            PartType::Beta
        } else if v == 3 {
            PartType::Pre
        } else if v == 4 {
            PartType::Rc
        } else if v == 5 {
            PartType::Revision
        } else if v == 6 {
            PartType::InterRev
        } else if v == 7 {
            PartType::Patch
        } else if v == 8 {
            PartType::Character
        } else if v == 9 {
            PartType::Primary
        } else if v == 10 {
            PartType::First
        } else {
            PartType::Garbage
        }
    }

    /// What is written in front of the text of a part of this kind when a
    /// version is rendered.
    pub open spec fn separator(self) -> Seq<char> {
        match self {
            PartType::First | PartType::Character | PartType::Garbage => Seq::empty(),
            PartType::Primary | PartType::InterRev => "."@,
            PartType::Alpha => "_alpha"@,
            PartType::Beta => "_beta"@,
            PartType::Pre => "_pre"@,
            PartType::Rc => "_rc"@,
            PartType::Patch => "_p"@,
            PartType::Revision => "-r"@,
        }
    }

    /// Decodes the kind of a part from its number.
    pub fn from_u64(v: u64) -> (r: Self)
        ensures
            r == Self::of_code(v as nat),
            r.code() == (if 1 <= v <= 10 {
                v as nat
            } else {
                0
            }),
    {
        match v {
            1 => PartType::Alpha,
            2 => PartType::Beta,
            3 => PartType::Pre,
            4 => PartType::Rc,
            5 => PartType::Revision,
            6 => PartType::InterRev,
            7 => PartType::Patch,
            8 => PartType::Character,
            9 => PartType::Primary,
            10 => PartType::First,
            _ => PartType::Garbage,
        }
    }
}

/// One fragment of a version string.
#[derive(Debug, Clone)]
pub struct BasicPart {
    pub part_type: PartType,
    pub part_content: String,
}

/// The view of a [`BasicPart`].
pub struct PartView {
    pub part_type: PartType,
    pub content: Seq<char>,
}

impl View for BasicPart {
    type V = PartView;

    open spec fn view(&self) -> PartView {
        PartView { part_type: self.part_type, content: self.part_content@ }
    }
}

impl DeepView for BasicPart {
    type V = PartView;

    open spec fn deep_view(&self) -> PartView {
        self@
    }
}

/// The text of one part as it appears in a rendered version.
pub open spec fn render_part(p: PartView) -> Seq<char> {
    p.part_type.separator() + p.content
}

/// The rendered version string: the parts in order, each behind the
/// separator of its kind.
pub open spec fn render_parts(parts: Seq<PartView>) -> Seq<char>
    decreases parts.len(),
{
    if parts.len() == 0 {
        Seq::empty()
    } else {
        render_parts(parts.drop_last()) + render_part(parts.last())
    }
}

/// A repository that contributes packages.
#[derive(Debug, Clone)]
pub struct OverlayIdent {
    pub path: String,
    pub label: String,
    /// The position of the overlay in the header's list.
    pub priority: i32,
}

/// The view of an [`OverlayIdent`].
pub struct OverlayView {
    pub path: Seq<char>,
    pub label: Seq<char>,
    pub priority: i32,
}

impl View for OverlayIdent {
    type V = OverlayView;

    open spec fn view(&self) -> OverlayView {
        OverlayView { path: self.path@, label: self.label@, priority: self.priority }
    }
}

impl DeepView for OverlayIdent {
    type V = OverlayView;

    open spec fn deep_view(&self) -> OverlayView {
        self@
    }
}

/// The dependencies of one version of a package.
#[derive(Debug, Clone)]
pub struct Depend {
    pub depend: Vec<String>,
    pub rdepend: Vec<String>,
    pub pdepend: Vec<String>,
    pub bdepend: Vec<String>,
    pub idepend: Vec<String>,
}

/// The view of a [`Depend`].
pub struct DependView {
    pub depend: Seq<Seq<char>>,
    pub rdepend: Seq<Seq<char>>,
    pub pdepend: Seq<Seq<char>>,
    pub bdepend: Seq<Seq<char>>,
    pub idepend: Seq<Seq<char>>,
}

impl View for Depend {
    type V = DependView;

    open spec fn view(&self) -> DependView {
        DependView {
            depend: self.depend.deep_view(),
            rdepend: self.rdepend.deep_view(),
            pdepend: self.pdepend.deep_view(),
            bdepend: self.bdepend.deep_view(),
            idepend: self.idepend.deep_view(),
        }
    }
}

impl DeepView for Depend {
    type V = DependView;

    open spec fn deep_view(&self) -> DependView {
        self@
    }
}

/// One version of a package.
#[derive(Debug, Clone)]
pub struct Version {
    pub version_string: String,
    pub parts: Vec<BasicPart>,
    pub eapi: String,
    pub mask_flags: u8,
    pub properties_flags: u8,
    pub restrict_flags: u64,
    pub keywords: Vec<String>,
    pub slot: String,
    pub overlay_key: u64,
    pub reponame: String,
    pub priority: i32,
    pub iuse: Vec<String>,
    pub required_use: Vec<String>,
    pub depend: Option<Depend>,
    pub src_uri: Option<String>,
}

/// The view of a [`Version`].
pub struct VersionView {
    pub version_string: Seq<char>,
    pub parts: Seq<PartView>,
    pub eapi: Seq<char>,
    pub mask_flags: u8,
    pub properties_flags: u8,
    pub restrict_flags: u64,
    pub keywords: Seq<Seq<char>>,
    pub slot: Seq<char>,
    pub overlay_key: u64,
    pub reponame: Seq<char>,
    pub priority: i32,
    pub iuse: Seq<Seq<char>>,
    pub required_use: Seq<Seq<char>>,
    pub depend: Option<DependView>,
    pub src_uri: Option<Seq<char>>,
}

impl View for Version {
    type V = VersionView;

    open spec fn view(&self) -> VersionView {
        VersionView {
            version_string: self.version_string@,
            parts: self.parts.deep_view(),
            eapi: self.eapi@,
            mask_flags: self.mask_flags,
            properties_flags: self.properties_flags,
            restrict_flags: self.restrict_flags,
            keywords: self.keywords.deep_view(),
            slot: self.slot@,
            overlay_key: self.overlay_key,
            reponame: self.reponame@,
            priority: self.priority,
            iuse: self.iuse.deep_view(),
            required_use: self.required_use.deep_view(),
            depend: self.depend.deep_view(),
            src_uri: self.src_uri.deep_view(),
        }
    }
}

impl DeepView for Version {
    type V = VersionView;

    open spec fn deep_view(&self) -> VersionView {
        self@
    }
}

/// Whether a mask byte marks a version as installed: one of the two bits
/// `MASK_IN_PROFILE` and `MASK_MARKED` is set.
pub open spec fn mask_installed(mask: u8) -> bool {
    (mask & MASK_IN_PROFILE) != 0 || (mask & MASK_MARKED) != 0
}

/// The view `v` with its version string replaced by the rendering of its
/// parts.
pub open spec fn with_rendered_version(v: VersionView) -> VersionView {
    VersionView { version_string: render_parts(v.parts), ..v }
}

impl Version {
    /// Whether the version is installed.
    pub fn is_installed(&self) -> (r: bool)
        ensures
            r == mask_installed(self.mask_flags),
    {
        (self.mask_flags & MASK_IN_PROFILE) != 0 || (self.mask_flags & MASK_MARKED) != 0
    }

    /// The version string as users write it, computed from the parts.
    pub fn get_full_version(&self) -> (r: String)
        ensures
            r@ == render_parts(self@.parts),
    {
        let mut s = String::new();
        let mut i: usize = 0;
        while i < self.parts.len()
            invariant
                i <= self.parts@.len(),
                s@ == render_parts(self@.parts.take(i as int)),
            decreases self.parts@.len() - i,
        {
            let part = &self.parts[i];
            let ghost before = s@;
            match part.part_type {
                PartType::First | PartType::Character | PartType::Garbage => {},
                PartType::Alpha => {
                    s.append("_alpha");
                },
                PartType::Beta => {
                    s.append("_beta");
                },
                PartType::Pre => {
                    s.append("_pre");
                },
                PartType::Rc => {
                    s.append("_rc");
                },
                PartType::Patch => {
                    s.append("_p");
                },
                PartType::Revision => {
                    s.append("-r");
                },
                PartType::InterRev | PartType::Primary => {
                    s.append(".");
                },
            }
            s.append(part.part_content.as_str());
            proof {
                let next = self@.parts.take(i + 1);
                assert(next.drop_last() =~= self@.parts.take(i as int));
                assert(next.last() == part@);
                assert(s@ =~= before + render_part(part@));
            }
            i = i + 1;
        }
        assert(self@.parts.take(i as int) =~= self@.parts);
        s
    }
}

/// A package with all its versions.
#[derive(Debug, Clone)]
pub struct Package {
    pub category: String,
    pub name: String,
    pub description: String,
    pub homepage: String,
    pub licenses: String,
    pub versions: Vec<Version>,
}

/// The view of a [`Package`].
pub struct PackageView {
    pub category: Seq<char>,
    pub name: Seq<char>,
    pub description: Seq<char>,
    pub homepage: Seq<char>,
    pub licenses: Seq<char>,
    pub versions: Seq<VersionView>,
}

impl View for Package {
    type V = PackageView;

    open spec fn view(&self) -> PackageView {
        PackageView {
            category: self.category@,
            name: self.name@,
            description: self.description@,
            homepage: self.homepage@,
            licenses: self.licenses@,
            versions: self.versions.deep_view(),
        }
    }
}

impl DeepView for Package {
    type V = PackageView;

    open spec fn deep_view(&self) -> PackageView {
        self@
    }
}

/// The header of a database: what every later record is decoded against.
#[derive(Clone)]
pub struct DBHeader {
    pub version: DBVersion,
    /// The number of categories that follow the header.
    pub size: Catsize,
    pub overlays: Vec<OverlayIdent>,
    pub eapi_hash: StringHash,
    pub license_hash: StringHash,
    pub keywords_hash: StringHash,
    pub iuse_hash: StringHash,
    pub slot_hash: StringHash,
    pub depend_hash: StringHash,
    /// Versions carry their dependencies.
    pub use_depend: bool,
    /// Versions carry REQUIRED_USE.
    pub use_required_use: bool,
    /// Versions carry SRC_URI.
    pub use_src_uri: bool,
    pub world_sets: Vec<String>,
}

/// The view of a [`DBHeader`].
pub struct HeaderView {
    pub version: DBVersion,
    pub size: Catsize,
    pub overlays: Seq<OverlayView>,
    pub eapi_hash: Seq<Seq<char>>,
    pub license_hash: Seq<Seq<char>>,
    pub keywords_hash: Seq<Seq<char>>,
    pub iuse_hash: Seq<Seq<char>>,
    pub slot_hash: Seq<Seq<char>>,
    pub depend_hash: Seq<Seq<char>>,
    pub use_depend: bool,
    pub use_required_use: bool,
    pub use_src_uri: bool,
    pub world_sets: Seq<Seq<char>>,
}

impl View for DBHeader {
    type V = HeaderView;

    open spec fn view(&self) -> HeaderView {
        HeaderView {
            version: self.version,
            size: self.size,
            overlays: self.overlays.deep_view(),
            eapi_hash: self.eapi_hash@,
            license_hash: self.license_hash@,
            keywords_hash: self.keywords_hash@,
            iuse_hash: self.iuse_hash@,
            slot_hash: self.slot_hash@,
            depend_hash: self.depend_hash@,
            use_depend: self.use_depend,
            use_required_use: self.use_required_use,
            use_src_uri: self.use_src_uri,
            world_sets: self.world_sets.deep_view(),
        }
    }
}

impl DeepView for DBHeader {
    type V = HeaderView;

    open spec fn deep_view(&self) -> HeaderView {
        self@
    }
}

/// A version counts as installed exactly when its mask byte has one of the
/// two bits `0x20` and `0x40`; no other bit matters.
pub proof fn lemma_installed_bits(mask: u8)
    ensures
        mask_installed(mask) <==> (mask & 0x60) != 0,
        mask_installed(mask) == mask_installed(mask & 0x60),
        !mask_installed(mask & 0x9F),
        mask_installed(mask | 0x20),
        mask_installed(mask | 0x40),
{
    assert(((mask & 0x20) != 0 || (mask & 0x40) != 0) <==> (mask & 0x60) != 0) by (bit_vector);
    assert((mask & 0x60) & 0x20 == mask & 0x20) by (bit_vector);
    assert((mask & 0x60) & 0x40 == mask & 0x40) by (bit_vector);
    assert((mask & 0x9F) & 0x20 == 0) by (bit_vector);
    assert((mask & 0x9F) & 0x40 == 0) by (bit_vector);
    assert((mask | 0x20) & 0x20 != 0) by (bit_vector);
    assert((mask | 0x40) & 0x40 != 0) by (bit_vector);
}

} // verus!
