//! Asset browser data: the entries shown, their kinds, the folder tree and
//! the type filter.
use vstd::prelude::*;
use vstd::string::*;
use crate::text::chars_of;

verus! {

/// One asset as the browser shows it.
#[derive(Debug, Clone)]
pub struct AssetEntry {
    pub name: String,
    pub path: String,
    pub uuid: String,
    pub asset_type: AssetType,
    pub size_bytes: u64,
}

/// The kind of an asset.
#[derive(Debug, Clone, Copy, PartialEq, Eq, Structural)]
pub enum AssetType {
    Folder,
    Scene,
    Model,
    Texture,
    Audio,
    Avatar,
    Prefab,
    Other,
}

/// The kind of an asset as its metadata file records it.
#[derive(Debug, Clone, Copy, PartialEq, Eq, Structural)]
pub enum AssetTypeKind {
    Model,
    Texture,
    Audio,
    Scene,
    Avatar,
    Prefab,
    Material,
    Other,
}

impl AssetType {
    /// The icon shown next to assets of this kind.
    pub fn icon(&self) -> (r: &str)
        ensures
            r@ == match *self {
                AssetType::Folder => "\u{1F4C1}"@,
                AssetType::Scene => "\u{1F3AC}"@,
                AssetType::Model => "\u{1F537}"@,
                AssetType::Texture => "\u{1F5BC}"@,
                AssetType::Audio => "\u{1F50A}"@,
                AssetType::Avatar => "\u{1F9D1}"@,
                AssetType::Prefab => "\u{1F4E6}"@,
                AssetType::Other => "\u{1F4C4}"@,
            },
    {
        match self {
            AssetType::Folder => "\u{1F4C1}",
            AssetType::Scene => "\u{1F3AC}",
            AssetType::Model => "\u{1F537}",
            AssetType::Texture => "\u{1F5BC}",
            AssetType::Audio => "\u{1F50A}",
            AssetType::Avatar => "\u{1F9D1}",
            AssetType::Prefab => "\u{1F4E6}",
            AssetType::Other => "\u{1F4C4}",
        }
    }

    /// The browser kind of an asset recorded in its metadata (materials
    /// show as other files).
    pub fn from_kind(kind: AssetTypeKind) -> (r: Self)
        ensures
            r == match kind {
                AssetTypeKind::Model => AssetType::Model,
                AssetTypeKind::Texture => AssetType::Texture,
                AssetTypeKind::Audio => AssetType::Audio,
                AssetTypeKind::Scene => AssetType::Scene,
                AssetTypeKind::Avatar => AssetType::Avatar,
                AssetTypeKind::Prefab => AssetType::Prefab,
                AssetTypeKind::Material | AssetTypeKind::Other => AssetType::Other,
            },
    {
        match kind {
            AssetTypeKind::Model => AssetType::Model,
            AssetTypeKind::Texture => AssetType::Texture,
            AssetTypeKind::Audio => AssetType::Audio,
            AssetTypeKind::Scene => AssetType::Scene,
            AssetTypeKind::Avatar => AssetType::Avatar,
            AssetTypeKind::Prefab => AssetType::Prefab,
            AssetTypeKind::Material | AssetTypeKind::Other => AssetType::Other,
        }
    }

    /// Whether assets of this kind can be dragged into the scene (models
    /// and prefabs only).
    pub fn is_draggable(&self) -> (r: bool)
        ensures
            r == (*self is Model || *self is Prefab),
    {
        match self {
            AssetType::Model | AssetType::Prefab => true,
            _ => false,
        }
    }
}

/// A node of the folder tree shown on the left of the browser.
#[derive(Debug)]
pub struct FolderNode {
    pub path: String,
    pub children: Vec<FolderNode>,
}

impl FolderNode {
    /// A folder without subfolders.
    pub fn new(path: String) -> (r: Self)
        ensures
            r.path == path,
            r.children@.len() == 0,
    {
        FolderNode { path, children: Vec::new() }
    }
}

/// The type filter of the browser.
#[derive(Debug, Clone, Copy, PartialEq, Eq, Structural)]
pub enum AssetFilter {
    All,
    Models,
    Textures,
    Audio,
    Scenes,
    Avatars,
    Prefabs,
}

impl AssetFilter {
    /// The label of the filter.
    pub fn label(&self) -> (r: &str)
        ensures
            r@ == match *self {
                AssetFilter::All => "All"@,
                AssetFilter::Models => "Models"@,
                AssetFilter::Textures => "Textures"@,
                AssetFilter::Audio => "Audio"@,
                AssetFilter::Scenes => "Scenes"@,
                AssetFilter::Avatars => "Avatars"@,
                AssetFilter::Prefabs => "Prefabs"@,
            },
    {
        match self {
            AssetFilter::All => "All",
            AssetFilter::Models => "Models",
            AssetFilter::Textures => "Textures",
            AssetFilter::Audio => "Audio",
            AssetFilter::Scenes => "Scenes",
            AssetFilter::Avatars => "Avatars",
            AssetFilter::Prefabs => "Prefabs",
        }
    }

    /// Whether an asset of the given kind passes the filter.
    pub fn matches(&self, asset_type: AssetType) -> (r: bool)
        ensures
            r == match *self {
                AssetFilter::All => true,
                AssetFilter::Models => asset_type is Model,
                AssetFilter::Textures => asset_type is Texture,
                AssetFilter::Audio => asset_type is Audio,
                AssetFilter::Scenes => asset_type is Scene,
                AssetFilter::Avatars => asset_type is Avatar,
                AssetFilter::Prefabs => asset_type is Prefab,
            },
    {
        match self {
            AssetFilter::All => true,
            AssetFilter::Models => matches!(asset_type, AssetType::Model),
            AssetFilter::Textures => matches!(asset_type, AssetType::Texture),
            AssetFilter::Audio => matches!(asset_type, AssetType::Audio),
            AssetFilter::Scenes => matches!(asset_type, AssetType::Scene),
            AssetFilter::Avatars => matches!(asset_type, AssetType::Avatar),
            AssetFilter::Prefabs => matches!(asset_type, AssetType::Prefab),
        }
    }
}

/// The parts of `s` between the separators, as `str::split` gives them
/// (an empty text has one empty part).
pub open spec fn split_on(s: Seq<char>, sep: char) -> Seq<Seq<char>>
    decreases s.len(),
{
    if s.len() == 0 {
        seq![Seq::<char>::empty()]
    } else {
        let p = split_on(s.drop_last(), sep);
        if s.last() == sep {
            p.push(Seq::<char>::empty())
        } else {
            p.update(p.len() - 1, p.last().push(s.last()))
        }
    }
}

/// There is always at least one part.
pub proof fn lemma_split_on_nonempty(s: Seq<char>, sep: char)
    ensures
        split_on(s, sep).len() >= 1,
    decreases s.len(),
{
    if s.len() > 0 {
        lemma_split_on_nonempty(s.drop_last(), sep);
    }
}

/// The path reached at each part: the previous path, a slash and the part
/// (the part alone while the path is still empty).
pub open spec fn accumulate_paths(parts: Seq<Seq<char>>) -> Seq<Seq<char>>
    decreases parts.len(),
{
    if parts.len() == 0 {
        Seq::empty()
    } else {
        let prev = accumulate_paths(parts.drop_last());
        let acc = if prev.len() == 0 {
            Seq::<char>::empty()
        } else {
            prev.last()
        };
        prev.push(
            if acc.len() == 0 {
                parts.last()
            } else {
                acc + seq!['/'] + parts.last()
            },
        )
    }
}

/// As many paths as parts.
pub proof fn lemma_accumulate_len(parts: Seq<Seq<char>>)
    ensures
        accumulate_paths(parts).len() == parts.len(),
    decreases parts.len(),
{
    if parts.len() > 0 {
        lemma_accumulate_len(parts.drop_last());
    }
}

/// The parts of a `/`-separated path.
pub fn split_path(path: &str) -> (r: Vec<String>)
    ensures
        r@.map_values(|p: String| p@) == split_on(path@, '/'),
{
    let cs = chars_of(path);
    let n = cs.len();
    let mut parts: Vec<String> = Vec::new();
    let mut start: usize = 0;
    let mut i: usize = 0;
    proof {
        assert(path@.take(0) =~= Seq::<char>::empty());
        assert(parts@.map_values(|p: String| p@).push(path@.subrange(0, 0)) =~= split_on(path@.take(0), '/'));
    }
    while i < n
        invariant
            cs@ == path@,
            n == path@.len(),
            start <= i <= n,
            parts@.map_values(|p: String| p@).push(path@.subrange(start as int, i as int)) == split_on(
                path@.take(i as int),
                '/',
            ),
        decreases n - i,
    {
        let c = cs[i];
        let ghost before = parts@.map_values(|p: String| p@);
        proof {
            assert(path@.take(i + 1).drop_last() =~= path@.take(i as int));
            assert(path@.take(i + 1).last() == c);
        }
        if c == '/' {
            parts.push(String::from_str(path.substring_char(start, i)));
            proof {
                assert(parts@.map_values(|p: String| p@) =~= before.push(path@.subrange(start as int, i as int)));
                assert(path@.subrange(i + 1, i + 1) =~= Seq::<char>::empty());
            }
            start = i + 1;
        } else {
            proof {
                assert(path@.subrange(start as int, i + 1) =~= path@.subrange(start as int, i as int).push(c));
                assert(before.push(path@.subrange(start as int, i + 1)) =~= before.push(
                    path@.subrange(start as int, i as int),
                ).update(before.len() as int, path@.subrange(start as int, i as int).push(c)));
            }
        }
        i = i + 1;
    }
    let ghost before = parts@.map_values(|p: String| p@);
    parts.push(String::from_str(path.substring_char(start, n)));
    proof {
        assert(parts@.map_values(|p: String| p@) =~= before.push(path@.subrange(start as int, n as int)));
        assert(path@.take(n as int) =~= path@);
    }
    parts
}

/// The breadcrumb of a browsed folder: each part of its path with the path
/// up to that part (for "assets/models/hero": ("assets", "assets"),
/// ("models", "assets/models"), ("hero", "assets/models/hero")).
pub fn breadcrumb_segments(current_path: &str) -> (r: Vec<(String, String)>)
    ensures
        r@.len() == split_on(current_path@, '/').len(),
        forall|i: int|
            0 <= i < r@.len() ==> (#[trigger] r@[i]).0@ == split_on(current_path@, '/')[i] && r@[i].1@
                == accumulate_paths(split_on(current_path@, '/'))[i],
{
    let parts = split_path(current_path);
    let ghost ps = split_on(current_path@, '/');
    let mut segments: Vec<(String, String)> = Vec::new();
    let mut acc = String::new();
    let mut i: usize = 0;
    proof {
        lemma_accumulate_len(ps);
        assert(parts@.len() == ps.len());
    }
    while i < parts.len()
        invariant
            parts@.map_values(|p: String| p@) == ps,
            i <= parts@.len(),
            segments@.len() == i,
            forall|k: int| 0 <= k < i ==> (#[trigger] segments@[k]).0@ == ps[k] && segments@[k].1@ == accumulate_paths(
                ps.take(i as int),
            )[k],
            acc@ == if i == 0 {
                Seq::<char>::empty()
            } else {
                accumulate_paths(ps.take(i as int)).last()
            },
            accumulate_paths(ps.take(i as int)).len() == i,
        decreases parts@.len() - i,
    {
        let part = parts[i].as_str();
        let ghost prev = accumulate_paths(ps.take(i as int));
        proof {
            assert(ps.take(i + 1).drop_last() =~= ps.take(i as int));
            assert(ps.take(i + 1).last() == ps[i as int]);
            assert(part@ == ps[i as int]);
        }
        let ghost old_acc = acc@;
        let ghost acc_prev = if prev.len() == 0 {
            Seq::<char>::empty()
        } else {
            prev.last()
        };
        assert(old_acc == acc_prev);
        if acc.as_str().unicode_len() == 0 {
            acc = String::from_str(part);
            assert(acc@ == ps[i as int]);
        } else {
            acc.append("/");
            acc.append(part);
            proof {
                reveal_strlit("/");
                assert(acc@ == acc_prev + seq!['/'] + ps[i as int]);
            }
        }
        let ghost next = accumulate_paths(ps.take(i + 1));
        proof {
            let t = ps.take(i + 1);
            assert(t.len() > 0);
            assert(accumulate_paths(t.drop_last()) == prev);
            assert(t.last() == ps[i as int]);
            assert(next == prev.push(acc@));
        }
        segments.push((String::from_str(part), String::from_str(acc.as_str())));
        proof {
            assert forall|k: int| 0 <= k < i + 1 implies (#[trigger] segments@[k]).0@ == ps[k] && segments@[k].1@ == next[k] by {
                if k < i {
                    assert(next[k] == prev[k]);
                }
            }
        }
        i = i + 1;
    }
    proof {
        assert(ps.take(ps.len() as int) =~= ps);
    }
    segments
}

} // verus!
