//! Which graphics API a game renders with, as far as its files show it.
use vstd::prelude::*;

use crate::chars::{lower, lower_string};
use crate::order::{as_places, in_order, order, weak_order};
use crate::paths::{extension_of, file_extension, joined, path_join};
use crate::pe::{import_functions, import_names, pe_import_fns, pe_imports};
use crate::strs::{
    contains, cut_end, ends, ends_with, eq_fold, occurs, list_has, opt_string, same_fold, starts,
    starts_with, str_eq, texts, texts_push, without_end,
};
use crate::tree::{has_file, has_file_in, holds_file, holds_file_in, Kind, Node};

verus! {

/// Graphics API that an executable imports, from its import table.
#[derive(Debug, Clone, Copy, PartialEq, Eq, Structural)]
pub enum Api {
    /// Direct3D 10 or 10.1; a game imports `d3d10_1.dll` rather than `d3d10.dll`
    /// in practice.
    Dx10,
    Dx11,
    Dx12,
    /// Imports `d3d9.dll` and no newer Direct3D. DLSS needs a D3D11/12 device, so
    /// these need dgVoodoo2 in front before anything here applies.
    Dx9,
    /// Imports `vulkan-1.dll` and no Direct3D. ReShade reaches a Vulkan game
    /// through a registered layer, not through a `dxgi.dll` beside the exe.
    Vulkan,
    /// Neither d3d11.dll nor d3d12.dll is a static import.
    Unknown,
}

impl Api {
    pub open spec fn says(self) -> Seq<char> {
        match self {
            Api::Dx10 => "DX10"@,
            Api::Dx11 => "DX11"@,
            Api::Dx12 => "DX12"@,
            Api::Dx9 => "DX9"@,
            Api::Vulkan => "Vulkan"@,
            Api::Unknown => "API unknown, assuming DX12"@,
        }
    }

    pub fn label(self) -> (r: &'static str)
        ensures
            r@ == self.says(),
    {
        match self {
            Api::Dx10 => "DX10",
            Api::Dx11 => "DX11",
            Api::Dx12 => "DX12",
            Api::Dx9 => "DX9",
            Api::Vulkan => "Vulkan",
            Api::Unknown => "API unknown, assuming DX12",
        }
    }
}

/// Which API a list of imports implies: the newest that is there.
pub open spec fn imported(v: Seq<Seq<char>>) -> Api {
    if v.contains("d3d12.dll"@) {
        Api::Dx12
    } else if v.contains("d3d11.dll"@) {
        Api::Dx11
    } else if v.contains("d3d10_1.dll"@) || v.contains("d3d10.dll"@) {
        Api::Dx10
    } else if v.contains("vulkan-1.dll"@) {
        Api::Vulkan
    } else if v.contains("d3d9.dll"@) {
        Api::Dx9
    } else {
        Api::Unknown
    }
}

pub fn classify_imports(imports: &[String]) -> (r: Api)
    ensures
        r == imported(texts(imports@)),
{
    if list_has(imports, "d3d12.dll") {
        Api::Dx12
    } else if list_has(imports, "d3d11.dll") {
        Api::Dx11
    } else if list_has(imports, "d3d10_1.dll") || list_has(imports, "d3d10.dll") {
        Api::Dx10
    } else if list_has(imports, "vulkan-1.dll") {
        Api::Vulkan
    } else if list_has(imports, "d3d9.dll") {
        Api::Dx9
    } else {
        Api::Unknown
    }
}

/// An import that only a renderer newer than Direct3D 9 would carry: a newer
/// API, or an upscaler or latency library that is shipped for one.
pub open spec fn is_newer(import: Seq<char>) -> bool {
    let stem = without_end(import, ".dll"@);
    ||| stem == "dxgi"@
    ||| stem == "d3d10"@
    ||| stem == "d3d10_1"@
    ||| stem == "d3d11"@
    ||| stem == "d3d12"@
    ||| stem == "vulkan-1"@
    ||| occurs(stem, "dx11"@)
    ||| occurs(stem, "dx12"@)
    ||| occurs(stem, "vulkan"@)
    ||| ends(stem, "vk"@)
    ||| occurs(stem, "_vk_"@)
}

fn implies_newer_than_d3d9(import: &str) -> (r: bool)
    ensures
        r == is_newer(import@),
{
    let stem = cut_end(import, ".dll");
    let s = stem.as_str();
    str_eq(s, "dxgi") || str_eq(s, "d3d10") || str_eq(s, "d3d10_1") || str_eq(s, "d3d11") || str_eq(
        s,
        "d3d12",
    ) || str_eq(s, "vulkan-1") || contains(s, "dx11") || contains(s, "dx12") || contains(s, "vulkan")
        || ends_with(s, "vk") || contains(s, "_vk_")
}

/// The image imports `d3d9.dll` for something other than the `D3DPERF_*` debug
/// markers, and nothing that implies a newer API.
pub open spec fn renders_d3d9(b: Seq<u8>) -> bool {
    let fns = import_functions(b, "d3d9.dll"@);
    &&& forall|i: int| 0 <= i < import_names(b).len() ==> !is_newer(#[trigger] import_names(b)[i])
    &&& fns.len() == 0 || exists|i: int|
        0 <= i < fns.len() && !starts(#[trigger] fns[i], "d3dperf_"@)
}

fn d3d9_is_the_renderer(image: &[u8]) -> (r: bool)
    ensures
        r == renders_d3d9(image@),
{
    let imports = pe_imports(image);
    let mut i: usize = 0;
    while i < imports.len()
        invariant
            texts(imports@) == import_names(image@),
            i <= imports@.len(),
            forall|j: int| 0 <= j < i ==> !is_newer(#[trigger] import_names(image@)[j]),
        decreases imports@.len() - i,
    {
        assert(import_names(image@)[i as int] == imports@[i as int]@);
        if implies_newer_than_d3d9(imports[i].as_str()) {
            return false;
        }
        i += 1;
    }
    assert(import_names(image@).len() == imports@.len());
    let fns = pe_import_fns(image, "d3d9.dll");
    let ghost names = import_functions(image@, "d3d9.dll"@);
    assert(names.len() == fns@.len());
    if fns.len() == 0 {
        return true;
    }
    let mut k: usize = 0;
    while k < fns.len()
        invariant
            texts(fns@) == names,
            k <= fns@.len(),
            forall|j: int| 0 <= j < k ==> starts(#[trigger] names[j], "d3dperf_"@),
            names == import_functions(image@, "d3d9.dll"@),
            forall|j: int|
                0 <= j < import_names(image@).len() ==> !is_newer(#[trigger] import_names(
                    image@,
                )[j]),
        decreases fns@.len() - k,
    {
        assert(names[k as int] == fns@[k as int]@);
        if !starts_with(fns[k].as_str(), "d3dperf_") {
            assert(renders_d3d9(image@));
            return true;
        }
        k += 1;
    }
    false
}

/// The folder carries its own DirectX 12 Agility SDK runtime: in a `D3D12`
/// subfolder (Unreal), or directly beside the exe (Unity players). The
/// subfolder wins.
pub open spec fn agility(dir: Seq<char>, nodes: Seq<Node>) -> Option<Seq<char>> {
    if has_file_in(nodes, "D3D12"@, "D3D12Core.dll"@) {
        Some(joined(joined(dir, "D3D12"@), "D3D12Core.dll"@))
    } else if has_file(nodes, "D3D12Core.dll"@) {
        Some(joined(dir, "D3D12Core.dll"@))
    } else {
        None
    }
}

/// Where the game carries its own DirectX 12 Agility SDK runtime, if it does.
pub fn has_agility_redist(dir: &str, nodes: &[Node]) -> (r: Option<String>)
    ensures
        opt_string(r) == agility(dir@, nodes@),
{
    if holds_file_in(nodes, "D3D12", "D3D12Core.dll") {
        let sub = path_join(dir, "D3D12");
        Some(path_join(sub.as_str(), "D3D12Core.dll"))
    } else if holds_file(nodes, "D3D12Core.dll") {
        Some(path_join(dir, "D3D12Core.dll"))
    } else {
        None
    }
}

/// What the executable itself shows. Direct3D 9 counts only where it renders,
/// and the Agility SDK ships only with Direct3D 12 renderers.
pub open spec fn exe_api(b: Seq<u8>, agility: bool) -> Api {
    let a = imported(import_names(b));
    if a == Api::Dx9 && !renders_d3d9(b) {
        Api::Unknown
    } else if a == Api::Dx11 && agility {
        Api::Dx12
    } else {
        a
    }
}

/// What the libraries beside the executable show.
pub open spec fn dlls_api(images: Seq<Seq<u8>>) -> Api {
    if exists|i: int| 0 <= i < images.len() && imported(import_names(#[trigger] images[i])) == Api::Dx12 {
        Api::Dx12
    } else if exists|i: int|
        0 <= i < images.len() && imported(import_names(#[trigger] images[i])) == Api::Dx11 {
        Api::Dx11
    } else if exists|i: int|
        0 <= i < images.len() && imported(import_names(#[trigger] images[i])) == Api::Dx9
            && renders_d3d9(images[i]) {
        Api::Dx9
    } else {
        Api::Unknown
    }
}

/// Engines like Unity and Unreal load the API from an engine library beside the
/// exe, so those speak where the exe does not.
pub open spec fn found_api(b: Seq<u8>, agility: bool, images: Seq<Seq<u8>>) -> Api {
    if exe_api(b, agility) != Api::Unknown {
        exe_api(b, agility)
    } else {
        dlls_api(images)
    }
}

pub open spec fn byte_views(v: Seq<Vec<u8>>) -> Seq<Seq<u8>> {
    v.map_values(|b: Vec<u8>| b@)
}

pub fn api_from_exe(image: &[u8], agility: bool) -> (r: Api)
    ensures
        r == exe_api(image@, agility),
{
    let imports = pe_imports(image);
    let a = classify_imports(imports.as_slice());
    if a == Api::Dx9 && !d3d9_is_the_renderer(image) {
        Api::Unknown
    } else if a == Api::Dx11 && agility {
        Api::Dx12
    } else {
        a
    }
}

pub fn api_from_dlls(images: &[Vec<u8>]) -> (r: Api)
    ensures
        r == dlls_api(byte_views(images@)),
{
    let ghost v = byte_views(images@);
    let mut dx11 = false;
    let mut dx9 = false;
    let mut i: usize = 0;
    while i < images.len()
        invariant
            i <= images@.len(),
            v == byte_views(images@),
            forall|j: int| 0 <= j < i ==> imported(import_names(#[trigger] v[j])) != Api::Dx12,
            dx11 == exists|j: int|
                0 <= j < i && imported(import_names(#[trigger] v[j])) == Api::Dx11,
            dx9 == exists|j: int|
                0 <= j < i && imported(import_names(#[trigger] v[j])) == Api::Dx9 && renders_d3d9(
                    v[j],
                ),
        decreases images@.len() - i,
    {
        let image = images[i].as_slice();
        assert(v[i as int] == image@);
        let imports = pe_imports(image);
        let ghost was11 = dx11;
        let ghost was9 = dx9;
        match classify_imports(imports.as_slice()) {
            Api::Dx12 => {
                return Api::Dx12;
            },
            Api::Dx11 => {
                dx11 = true;
            },
            Api::Dx9 => {
                dx9 = d3d9_is_the_renderer(image) || dx9;
            },
            _ => {},
        }
        i += 1;
    }
    if dx11 {
        Api::Dx11
    } else if dx9 {
        Api::Dx9
    } else {
        Api::Unknown
    }
}

/// The API of a game, from its executable and the libraries beside it.
pub fn detect_api(image: &[u8], agility: bool, images: &[Vec<u8>]) -> (r: Api)
    ensures
        r == found_api(image@, agility, byte_views(images@)),
{
    let a = api_from_exe(image, agility);
    if a != Api::Unknown {
        a
    } else {
        api_from_dlls(images)
    }
}

/// A library that may show the API: not one of the proxies and add-ons that
/// would mislead.
pub open spec fn is_telling(n: Node) -> bool {
    let l = lower(n.name@);
    &&& n.kind != Kind::Other
    &&& (match extension_of(n.name@) {
        Some(x) => same_fold(x, "dll"@),
        None => false,
    })
    &&& !starts(l, "dxgi"@)
    &&& !starts(l, "d3d"@)
    &&& !starts(l, "nvngx"@)
    &&& !starts(l, "reshade"@)
}

fn telling(n: &Node) -> (r: bool)
    ensures
        r == is_telling(*n),
{
    let l = lower_string(n.name.as_str());
    let dll = match file_extension(n.name.as_str()) {
        Some(x) => eq_fold(x.as_str(), "dll"),
        None => false,
    };
    n.kind != Kind::Other && dll && !starts_with(l.as_str(), "dxgi") && !starts_with(
        l.as_str(),
        "d3d",
    ) && !starts_with(l.as_str(), "nvngx") && !starts_with(l.as_str(), "reshade")
}

/// Size and name of each library that may show the API.
pub open spec fn telling_dlls(nodes: Seq<Node>) -> Seq<(u64, Seq<char>)>
    decreases nodes.len(),
{
    if nodes.len() == 0 {
        Seq::empty()
    } else if is_telling(nodes.last()) {
        telling_dlls(nodes.drop_last()).push((nodes.last().len, nodes.last().name@))
    } else {
        telling_dlls(nodes.drop_last())
    }
}

/// How many libraries are scanned at most.
pub const MAX_DLLS: usize = 12;

/// The larger stands first.
pub open spec fn larger(v: Seq<(u64, Seq<char>)>) -> spec_fn(int, int) -> bool {
    |i: int, j: int| v[i].0 > v[j].0
}

/// The libraries to scan, the largest first.
pub open spec fn scanned(nodes: Seq<Node>) -> Seq<Seq<char>> {
    let v = telling_dlls(nodes);
    let all = in_order(v.len(), larger(v)).map_values(|i: int| v[i].1);
    if all.len() > MAX_DLLS {
        all.take(MAX_DLLS as int)
    } else {
        all
    }
}

pub open spec fn sized(v: Seq<(u64, String)>) -> Seq<(u64, Seq<char>)> {
    v.map_values(|e: (u64, String)| (e.0, e.1@))
}

/// The names of the libraries beside the exe that may show the API, the largest
/// first and no more than a few.
pub fn dlls_to_scan(nodes: &[Node]) -> (r: Vec<String>)
    ensures
        texts(r@) == scanned(nodes@),
{
    broadcast use texts_push;

    let mut v: Vec<(u64, String)> = Vec::new();
    let mut i: usize = 0;
    assert(sized(v@) =~= telling_dlls(nodes@.take(0)));
    while i < nodes.len()
        invariant
            i <= nodes@.len(),
            sized(v@) == telling_dlls(nodes@.take(i as int)),
        decreases nodes@.len() - i,
    {
        assert(nodes@.take(i + 1).drop_last() =~= nodes@.take(i as int));
        let ghost before = v@;
        if telling(&nodes[i]) {
            v.push((nodes[i].len, nodes[i].name.clone()));
            assert(sized(v@) =~= sized(before).push((nodes@[i as int].len, nodes@[i as int].name@)));
        }
        i += 1;
    }
    assert(nodes@.take(i as int) =~= nodes@);
    let ghost s = sized(v@);
    let ghost lt = larger(s);
    let n: usize = v.len();
    let before = |a: usize, b: usize| -> (r: bool)
        requires
            a < n,
            b < n,
        ensures
            r == lt(a as int, b as int),
        {
            v[a].0 > v[b].0
        };
    assert(weak_order(lt));
    let p = order(n, before, Ghost(lt));
    let ghost all = in_order(s.len(), lt).map_values(|i: int| s[i].1);
    let mut out: Vec<String> = Vec::new();
    let mut k: usize = 0;
    assert(texts(out@) =~= all.take(0));
    while k < p.len() && k < MAX_DLLS
        invariant
            k <= p@.len(),
            k <= MAX_DLLS,
            s == sized(v@),
            n == v@.len(),
            p@.len() == n,
            as_places(p@) == in_order(s.len(), lt),
            all == in_order(s.len(), lt).map_values(|i: int| s[i].1),
            forall|j: int| 0 <= j < p@.len() ==> #[trigger] p@[j] < n,
            texts(out@) == all.take(k as int),
        decreases p@.len() - k,
    {
        broadcast use texts_push;

        assert(as_places(p@)[k as int] == p@[k as int]);
        assert(all[k as int] == s[p@[k as int] as int].1);
        assert(p@[k as int] < n);
        out.push(v[p[k]].1.clone());
        assert(all.take(k + 1) =~= all.take(k as int).push(all[k as int]));
        k += 1;
    }
    assert(as_places(p@).len() == all.len());
    assert(all.take(all.len() as int) =~= all);
    out
}

} // verus!
