//! Which API a game renders with, and which libraries are asked for it.
use vstd::prelude::*;

use crate::api::{
    agility, dlls_api, exe_api, found_api, imported, is_newer, is_telling, larger, renders_d3d9,
    scanned, telling_dlls, Api, MAX_DLLS,
};
use crate::chars::lower;
use crate::order::{in_order, order_shape, stable, weak_order};
use crate::paths::{extension_of, joined, point_of};
use crate::pe::{import_functions, import_names};
use crate::strs::{ends, occurs, same_fold, starts, without_end};
use crate::tree::{has_file, has_file_in, Kind, Node};

verus! {

/// The extension of a name is what stands behind its last point, where something
/// stands before that point.
pub proof fn law_extension(stem: Seq<char>, ext: Seq<char>)
    requires
        stem.len() > 0,
        !ext.contains('.'),
    ensures
        extension_of(stem.push('.') + ext) == Some(ext),
{
    let name = stem.push('.') + ext;
    point_found(name, stem.len() as int, name.len() - 1);
    assert(name.skip((stem.len() + 1) as int) =~= ext);
}

proof fn point_found(name: Seq<char>, k: int, i: int)
    requires
        0 < k <= i < name.len(),
        name[k] == '.',
        forall|j: int| k < j < name.len() ==> #[trigger] name[j] != '.',
    ensures
        point_of(name, i) == Some(k),
    decreases i,
{
    if i > k {
        point_found(name, k, i - 1);
    }
}

/// The entry is a library that may show the API: its extension is `dll`, case
/// aside, and its name does not begin as that of a proxy or an add-on does.
pub open spec fn may_show(n: Node) -> bool {
    &&& n.kind != Kind::Other
    &&& extension_of(n.name@) is Some
    &&& same_fold(extension_of(n.name@)->0, "dll"@)
    &&& !starts(lower(n.name@), "dxgi"@)
    &&& !starts(lower(n.name@), "d3d"@)
    &&& !starts(lower(n.name@), "nvngx"@)
    &&& !starts(lower(n.name@), "reshade"@)
}

proof fn telling_all(nodes: Seq<Node>, i: int)
    requires
        0 <= i < nodes.len(),
        may_show(nodes[i]),
    ensures
        telling_dlls(nodes).contains((nodes[i].len, nodes[i].name@)),
    decreases nodes.len(),
{
    let rest = nodes.drop_last();
    if i < nodes.len() - 1 {
        telling_all(rest, i);
        assert(rest[i] == nodes[i]);
        let k = choose|k: int|
            0 <= k < telling_dlls(rest).len() && telling_dlls(rest)[k] == (
                nodes[i].len,
                nodes[i].name@,
            );
        assert(telling_dlls(nodes)[k] == telling_dlls(rest)[k]);
    } else {
        assert(is_telling(nodes.last()));
        assert(telling_dlls(nodes)[telling_dlls(rest).len() as int] == (
            nodes[i].len,
            nodes[i].name@,
        ));
    }
}

proof fn telling_only(nodes: Seq<Node>, k: int)
    requires
        0 <= k < telling_dlls(nodes).len(),
    ensures
        telling_dlls(nodes).len() <= nodes.len(),
        exists|i: int|
            0 <= i < nodes.len() && may_show(#[trigger] nodes[i]) && telling_dlls(nodes)[k] == (
                nodes[i].len,
                nodes[i].name@,
            ),
    decreases nodes.len(),
{
    let rest = nodes.drop_last();
    let here = telling_dlls(rest);
    if k < here.len() {
        telling_only(rest, k);
        let i = choose|i: int|
            0 <= i < rest.len() && may_show(#[trigger] rest[i]) && here[k] == (
                rest[i].len,
                rest[i].name@,
            );
        assert(nodes[i] == rest[i]);
        assert(telling_dlls(nodes)[k] == here[k]);
    } else {
        assert(may_show(nodes[nodes.len() - 1]));
        if here.len() > 0 {
            telling_only(rest, 0);
        }
    }
}

proof fn telling_few(nodes: Seq<Node>)
    ensures
        telling_dlls(nodes).len() <= nodes.len(),
{
    if telling_dlls(nodes).len() > 0 {
        telling_only(nodes, 0);
    }
}

proof fn by_size(v: Seq<(u64, Seq<char>)>)
    ensures
        weak_order(larger(v)),
{
}

/// In a folder of no more entries than are scanned, every library that may show
/// the API is scanned.
pub proof fn law_scans_every(nodes: Seq<Node>, i: int)
    requires
        nodes.len() <= 12,
        0 <= i < nodes.len(),
        may_show(nodes[i]),
    ensures
        scanned(nodes).contains(nodes[i].name@),
{
    let v = telling_dlls(nodes);
    let lt = larger(v);
    let o = in_order(v.len(), lt);
    let all = o.map_values(|i: int| v[i].1);
    by_size(v);
    order_shape(v.len(), lt);
    telling_few(nodes);
    telling_all(nodes, i);
    let k = choose|k: int| 0 <= k < v.len() && v[k] == (nodes[i].len, nodes[i].name@);
    assert(o.contains(k));
    let j = choose|j: int| 0 <= j < o.len() && o[j] == k;
    assert(all[j] == nodes[i].name@);
}

/// Nothing else is ever scanned, and never more than twelve libraries.
pub proof fn law_scans_only(nodes: Seq<Node>, k: int)
    requires
        0 <= k < scanned(nodes).len(),
    ensures
        scanned(nodes).len() <= 12,
        exists|i: int|
            0 <= i < nodes.len() && may_show(#[trigger] nodes[i]) && scanned(nodes)[k]
                == nodes[i].name@,
{
    let v = telling_dlls(nodes);
    let lt = larger(v);
    let o = in_order(v.len(), lt);
    let all = o.map_values(|i: int| v[i].1);
    by_size(v);
    order_shape(v.len(), lt);
    assert(scanned(nodes)[k] == all[k]);
    assert(0 <= o[k] < v.len());
    telling_only(nodes, o[k]);
}

/// What is scanned are the largest: of a library that is left out none that is
/// scanned is smaller. Each library stands for a place in the list of those that
/// may show the API.
pub proof fn law_scans_largest(nodes: Seq<Node>, i: int)
    requires
        0 <= i < nodes.len(),
        may_show(nodes[i]),
        !scanned(nodes).contains(nodes[i].name@),
    ensures
        scanned(nodes).len() == 12,
        forall|k: int|
            0 <= k < 12 ==> exists|j: int|
                0 <= j < nodes.len() && may_show(#[trigger] nodes[j]) && nodes[j].len
                    >= nodes[i].len && #[trigger] scanned(nodes)[k] == nodes[j].name@,
{
    let v = telling_dlls(nodes);
    let lt = larger(v);
    let o = in_order(v.len(), lt);
    let all = o.map_values(|i: int| v[i].1);
    by_size(v);
    order_shape(v.len(), lt);
    telling_all(nodes, i);
    let m = choose|m: int| 0 <= m < v.len() && v[m] == (nodes[i].len, nodes[i].name@);
    assert(o.contains(m));
    let p = choose|p: int| 0 <= p < o.len() && o[p] == m;
    assert(all[p] == nodes[i].name@);
    if all.len() <= MAX_DLLS || p < 12 {
        assert(scanned(nodes)[p] == nodes[i].name@);
        assert(false);
    }
    assert forall|k: int| 0 <= k < 12 implies exists|j: int|
        0 <= j < nodes.len() && may_show(#[trigger] nodes[j]) && nodes[j].len >= nodes[i].len
            && #[trigger] scanned(nodes)[k] == nodes[j].name@ by {
        assert(stable(lt)(o[k], o[p]));
        telling_only(nodes, o[k]);
        assert(scanned(nodes)[k] == all[k]);
    }
}

/// The largest library stands first, and the others follow by size.
pub proof fn law_scan_order(nodes: Seq<Node>, a: int, b: int)
    requires
        0 <= a < b < scanned(nodes).len(),
    ensures
        exists|i: int, j: int|
            0 <= i < nodes.len() && 0 <= j < nodes.len() && (#[trigger] nodes[i]).name@ == scanned(
                nodes,
            )[a] && (#[trigger] nodes[j]).name@ == scanned(nodes)[b] && nodes[i].len
                >= nodes[j].len,
{
    let v = telling_dlls(nodes);
    let lt = larger(v);
    let o = in_order(v.len(), lt);
    let all = o.map_values(|i: int| v[i].1);
    by_size(v);
    order_shape(v.len(), lt);
    assert(scanned(nodes)[a] == all[a]);
    assert(scanned(nodes)[b] == all[b]);
    assert(stable(lt)(o[a], o[b]));
    telling_only(nodes, o[a]);
    telling_only(nodes, o[b]);
}

/// The newest API that is imported counts; which imports stand beside it, and in
/// which order, does not matter.
pub proof fn law_newest_import(v: Seq<Seq<char>>)
    ensures
        imported(v) == Api::Dx12 <==> v.contains("d3d12.dll"@),
        imported(v) == Api::Dx11 <==> v.contains("d3d11.dll"@) && !v.contains("d3d12.dll"@),
        imported(v) == Api::Dx10 <==> (v.contains("d3d10.dll"@) || v.contains("d3d10_1.dll"@))
            && !v.contains("d3d11.dll"@) && !v.contains("d3d12.dll"@),
        imported(v) == Api::Vulkan <==> v.contains("vulkan-1.dll"@) && !v.contains("d3d10.dll"@)
            && !v.contains("d3d10_1.dll"@) && !v.contains("d3d11.dll"@) && !v.contains(
            "d3d12.dll"@,
        ),
        imported(v) == Api::Dx9 <==> v.contains("d3d9.dll"@) && !v.contains("vulkan-1.dll"@)
            && !v.contains("d3d10.dll"@) && !v.contains("d3d10_1.dll"@) && !v.contains(
            "d3d11.dll"@,
        ) && !v.contains("d3d12.dll"@),
        imported(v) == Api::Unknown ==> !v.contains("d3d9.dll"@),
{
}

/// An executable shows Direct3D 9 only where it imports nothing that a newer
/// renderer would, and does not import `d3d9.dll` for debug markers alone.
pub proof fn law_d3d9_renders(b: Seq<u8>, sdk: bool)
    requires
        exe_api(b, sdk) == Api::Dx9,
    ensures
        import_names(b).contains("d3d9.dll"@),
        forall|i: int|
            0 <= i < import_names(b).len() ==> {
                let n = #[trigger] import_names(b)[i];
                &&& n != "dxgi.dll"@
                &&& n != "d3d10.dll"@ && n != "d3d10_1.dll"@
                &&& n != "d3d11.dll"@ && n != "d3d12.dll"@
                &&& n != "vulkan-1.dll"@
            },
        import_functions(b, "d3d9.dll"@).len() == 0 || exists|i: int|
            0 <= i < import_functions(b, "d3d9.dll"@).len() && !starts(
                #[trigger] import_functions(b, "d3d9.dll"@)[i],
                "d3dperf_"@,
            ),
{
    assert forall|i: int| 0 <= i < import_names(b).len() implies ({
        let n = #[trigger] import_names(b)[i];
        &&& n != "dxgi.dll"@
        &&& n != "d3d10.dll"@ && n != "d3d10_1.dll"@
        &&& n != "d3d11.dll"@ && n != "d3d12.dll"@
        &&& n != "vulkan-1.dll"@
    }) by {
        assert(!is_newer(import_names(b)[i]));
        law_newer(import_names(b)[i]);
    }
}

/// An import of a newer API, or of an upscaler made for one, implies a renderer
/// newer than Direct3D 9; that of Direct3D 9 itself does not.
pub proof fn law_newer(import: Seq<char>)
    ensures
        import == "dxgi.dll"@ || import == "d3d10.dll"@ || import == "d3d10_1.dll"@ || import
            == "d3d11.dll"@ || import == "d3d12.dll"@ || import == "vulkan-1.dll"@ ==> is_newer(
            import,
        ),
        !ends(import, ".dll"@) && (occurs(import, "dx11"@) || occurs(import, "dx12"@) || occurs(
            import,
            "vulkan"@,
        ) || occurs(import, "_vk_"@) || ends(import, "vk"@)) ==> is_newer(import),
        forall|stem: Seq<char>|
            import == #[trigger] (stem + ".dll"@) && (occurs(stem, "dx11"@) || occurs(stem, "dx12"@)
                || occurs(stem, "vulkan"@) || occurs(stem, "_vk_"@) || ends(stem, "vk"@))
                ==> is_newer(import),
        import == "d3d9.dll"@ ==> !is_newer(import),
{
    reveal_strlit(".dll");
    reveal_strlit("dxgi.dll");
    reveal_strlit("dxgi");
    reveal_strlit("d3d10.dll");
    reveal_strlit("d3d10");
    reveal_strlit("d3d10_1.dll");
    reveal_strlit("d3d10_1");
    reveal_strlit("d3d11.dll");
    reveal_strlit("d3d11");
    reveal_strlit("d3d12.dll");
    reveal_strlit("d3d12");
    reveal_strlit("vulkan-1.dll");
    reveal_strlit("vulkan-1");
    cut_dll("dxgi.dll"@, "dxgi"@);
    cut_dll("d3d10.dll"@, "d3d10"@);
    cut_dll("d3d10_1.dll"@, "d3d10_1"@);
    cut_dll("d3d11.dll"@, "d3d11"@);
    cut_dll("d3d12.dll"@, "d3d12"@);
    cut_dll("vulkan-1.dll"@, "vulkan-1"@);
    d3d9_is_old();
    assert forall|stem: Seq<char>|
        import == #[trigger] (stem + ".dll"@) && (occurs(stem, "dx11"@) || occurs(stem, "dx12"@)
            || occurs(stem, "vulkan"@) || occurs(stem, "_vk_"@) || ends(stem, "vk"@)) implies is_newer(
        import,
    ) by {
        cut_dll(import, stem);
    }
}

proof fn d3d9_is_old()
    ensures
        !is_newer("d3d9.dll"@),
{
    reveal_strlit(".dll");
    reveal_strlit("d3d9.dll");
    reveal_strlit("d3d9");
    reveal_strlit("dxgi");
    reveal_strlit("d3d10");
    reveal_strlit("d3d10_1");
    reveal_strlit("d3d11");
    reveal_strlit("d3d12");
    reveal_strlit("vulkan-1");
    reveal_strlit("dx11");
    reveal_strlit("dx12");
    reveal_strlit("vulkan");
    reveal_strlit("vk");
    reveal_strlit("_vk_");
    let s = "d3d9"@;
    cut_dll("d3d9.dll"@, s);
    assert("dxgi"@[1] == 'x' && s[1] == '3');
    assert forall|t: Seq<char>|
        t.len() == 4 && t[1] != '3' implies !#[trigger] occurs(s, t) by {
        if occurs(s, t) {
            let i = choose|i: int| crate::strs::at(s, t, i);
            assert(i == 0);
            assert(s.subrange(0, 4)[1] == s[1]);
        }
    }
    assert(!occurs(s, "dx11"@));
    assert(!occurs(s, "dx12"@));
    assert(!occurs(s, "_vk_"@));
    assert(!occurs(s, "vulkan"@));
    assert(!ends(s, "vk"@)) by {
        assert(s.subrange(2, 4)[0] == 'd');
    }
}

proof fn cut_dll(name: Seq<char>, stem: Seq<char>)
    requires
        name =~= stem + ".dll"@,
    ensures
        without_end(name, ".dll"@) == stem,
{
    let d = ".dll"@;
    assert(name.subrange(name.len() - d.len(), name.len() - d.len() + d.len()) =~= d);
    assert(name.take(name.len() - d.len()) =~= stem);
}

/// The Agility SDK lifts Direct3D 11 to 12, and nothing else.
pub proof fn law_agility(b: Seq<u8>)
    ensures
        exe_api(b, false) == Api::Dx11 ==> exe_api(b, true) == Api::Dx12,
        exe_api(b, false) != Api::Dx11 ==> exe_api(b, true) == exe_api(b, false),
        exe_api(b, true) != Api::Dx11,
{
}

/// The libraries beside the exe are asked only where the exe does not tell, and
/// of them the newest API counts.
pub proof fn law_exe_speaks_first(b: Seq<u8>, sdk: bool, images: Seq<Seq<u8>>)
    ensures
        exe_api(b, sdk) != Api::Unknown ==> found_api(b, sdk, images) == exe_api(b, sdk),
        exe_api(b, sdk) == Api::Unknown ==> found_api(b, sdk, images) == dlls_api(images),
{
}

/// What the libraries show: Direct3D 12 where one imports it, else 11 where one
/// does, else 9 where one renders with it.
pub proof fn law_libraries_show(images: Seq<Seq<u8>>, i: int)
    requires
        0 <= i < images.len(),
    ensures
        import_names(images[i]).contains("d3d12.dll"@) ==> dlls_api(images) == Api::Dx12,
        import_names(images[i]).contains("d3d11.dll"@) ==> dlls_api(images) == Api::Dx12
            || dlls_api(images) == Api::Dx11,
        imported(import_names(images[i])) == Api::Dx9 && renders_d3d9(images[i]) ==> dlls_api(
            images,
        ) == Api::Dx12 || dlls_api(images) == Api::Dx11 || dlls_api(images) == Api::Dx9,
{
    if import_names(images[i]).contains("d3d12.dll"@) {
        assert(imported(import_names(images[i])) == Api::Dx12);
    } else if import_names(images[i]).contains("d3d11.dll"@) {
        assert(imported(import_names(images[i])) == Api::Dx11);
    }
}

/// What the libraries show one of them imports.
pub proof fn law_libraries_only(images: Seq<Seq<u8>>)
    ensures
        dlls_api(images) == Api::Dx12 ==> exists|i: int|
            0 <= i < images.len() && import_names(#[trigger] images[i]).contains("d3d12.dll"@),
        dlls_api(images) == Api::Dx11 ==> exists|i: int|
            0 <= i < images.len() && import_names(#[trigger] images[i]).contains("d3d11.dll"@),
        dlls_api(images) == Api::Dx9 ==> exists|i: int|
            0 <= i < images.len() && import_names(#[trigger] images[i]).contains("d3d9.dll"@)
                && renders_d3d9(images[i]),
        dlls_api(images) != Api::Dx10 && dlls_api(images) != Api::Vulkan,
{
    if dlls_api(images) == Api::Dx12 {
        let i = choose|i: int|
            0 <= i < images.len() && imported(import_names(#[trigger] images[i])) == Api::Dx12;
        assert(import_names(images[i]).contains("d3d12.dll"@));
    } else if dlls_api(images) == Api::Dx11 {
        let i = choose|i: int|
            0 <= i < images.len() && imported(import_names(#[trigger] images[i])) == Api::Dx11;
        assert(import_names(images[i]).contains("d3d11.dll"@));
    } else if dlls_api(images) == Api::Dx9 {
        let i = choose|i: int|
            0 <= i < images.len() && imported(import_names(#[trigger] images[i])) == Api::Dx9
                && renders_d3d9(images[i]);
        assert(import_names(images[i]).contains("d3d9.dll"@));
    }
}

/// The Agility SDK of a game is found in its folder `D3D12`, else beside the exe.
pub proof fn law_agility_place(dir: Seq<char>, nodes: Seq<Node>)
    ensures
        has_file_in(nodes, "D3D12"@, "D3D12Core.dll"@) ==> agility(dir, nodes) == Some(
            joined(joined(dir, "D3D12"@), "D3D12Core.dll"@),
        ),
        !has_file_in(nodes, "D3D12"@, "D3D12Core.dll"@) && has_file(nodes, "D3D12Core.dll"@)
            ==> agility(dir, nodes) == Some(joined(dir, "D3D12Core.dll"@)),
        agility(dir, nodes) is Some <==> has_file_in(nodes, "D3D12"@, "D3D12Core.dll"@) || has_file(
            nodes,
            "D3D12Core.dll"@,
        ),
{
}

/// An API is told by its version; one that is not known is taken for Direct3D 12.
pub proof fn law_api_labels(a: Api)
    ensures
        a == Api::Dx12 ==> a.says() == "DX12"@,
        a == Api::Dx11 ==> a.says() == "DX11"@,
        a == Api::Dx10 ==> a.says() == "DX10"@,
        a == Api::Dx9 ==> a.says() == "DX9"@,
        a == Api::Vulkan ==> a.says() == "Vulkan"@,
        ends(a.says(), "assuming DX12"@) <==> a == Api::Unknown,
{
    reveal_strlit("DX12");
    reveal_strlit("DX11");
    reveal_strlit("DX10");
    reveal_strlit("DX9");
    reveal_strlit("Vulkan");
    reveal_strlit("API unknown, assuming DX12");
    reveal_strlit("assuming DX12");
    let s = "API unknown, assuming DX12"@;
    assert(s.subrange(13, 26) =~= "assuming DX12"@);
}

} // verus!
