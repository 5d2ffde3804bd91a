//! The asset registry: named, immutable binary and text assets, each with a
//! metadata record, declared once and enumerated in declaration order.

use vstd::prelude::*;

use crate::text::str_eq;

verus! {

/// Metadata for binary assets.
#[derive(Debug, Clone)]
pub struct AssetInfo {
    pub name: String,
    pub size: usize,
    pub format: String,
    pub description: String,
}

/// Metadata for text assets.
#[derive(Debug, Clone)]
pub struct TextAssetInfo {
    pub name: String,
    pub description: String,
}

/// A binary asset: its raw content and its metadata record.
pub struct BinaryAsset {
    pub content: Vec<u8>,
    pub info: AssetInfo,
}

impl BinaryAsset {
    /// The recorded size always equals the actual content length.
    pub open spec fn wf(&self) -> bool {
        self.info.size == self.content@.len()
    }
}

/// A text asset: its content and its metadata record.
pub struct TextAsset {
    pub content: String,
    pub info: TextAssetInfo,
}

/// Declaring an asset can only fail over its name: a duplicate within the
/// same namespace of a registry is rejected.
#[derive(Debug, Clone, Copy, PartialEq, Eq, Structural)]
pub enum RegistryError {
    DuplicateName,
}

/// One requested binary asset: name, resolved content, format, description.
pub struct BinarySpec {
    pub name: String,
    pub content: Vec<u8>,
    pub format: String,
    pub description: String,
}

/// One requested text asset: name, resolved content, description.
pub struct TextSpec {
    pub name: String,
    pub content: String,
    pub description: String,
}

/// All requested binary names are mutually distinct.
pub open spec fn binary_names_distinct(specs: Seq<BinarySpec>) -> bool {
    forall|i: int, j: int|
        0 <= i < j < specs.len() ==> (#[trigger] specs[i]).name@ != (#[trigger] specs[j]).name@
}

/// All requested text names are mutually distinct.
pub open spec fn text_names_distinct(specs: Seq<TextSpec>) -> bool {
    forall|i: int, j: int|
        0 <= i < j < specs.len() ==> (#[trigger] specs[i]).name@ != (#[trigger] specs[j]).name@
}

/// The declared asset holds exactly the requested name, content and
/// metadata, with its size derived from the content.
pub open spec fn binary_matches_spec(a: BinaryAsset, s: BinarySpec) -> bool {
    &&& a.info.name@ == s.name@
    &&& a.content@ == s.content@
    &&& a.info.size == s.content@.len()
    &&& a.info.format@ == s.format@
    &&& a.info.description@ == s.description@
}

/// The declared text asset holds exactly the requested name, content and
/// description.
pub open spec fn text_matches_spec(a: TextAsset, s: TextSpec) -> bool {
    &&& a.info.name@ == s.name@
    &&& a.content@ == s.content@
    &&& a.info.description@ == s.description@
}

/// An ordered collection of binary and text assets declared as one unit.
/// The binary and text namespaces are independent: a binary and a text
/// asset may share a name.
pub struct Registry {
    name: String,
    binary: Vec<BinaryAsset>,
    text: Vec<TextAsset>,
}

impl Registry {
    /// The registry's own name.
    pub closed spec fn spec_name(&self) -> Seq<char> {
        self.name@
    }

    /// The binary assets, in declaration order.
    pub closed spec fn binary_assets(&self) -> Seq<BinaryAsset> {
        self.binary@
    }

    /// The text assets, in declaration order.
    pub closed spec fn text_assets(&self) -> Seq<TextAsset> {
        self.text@
    }

    /// Some binary asset carries this name.
    pub open spec fn has_binary_named(&self, name: Seq<char>) -> bool {
        exists|i: int|
            0 <= i < self.binary_assets().len() && (#[trigger] self.binary_assets()[i]).info.name@
                == name
    }

    /// Some text asset carries this name.
    pub open spec fn has_text_named(&self, name: Seq<char>) -> bool {
        exists|i: int|
            0 <= i < self.text_assets().len() && (#[trigger] self.text_assets()[i]).info.name@
                == name
    }

    /// Binary names are mutually distinct, text names are mutually distinct,
    /// and every recorded size equals the content's length.
    pub open spec fn wf(&self) -> bool {
        &&& forall|i: int, j: int|
            0 <= i < j < self.binary_assets().len() ==> (#[trigger] self.binary_assets()[i]).info.name@
                != (#[trigger] self.binary_assets()[j]).info.name@
        &&& forall|i: int, j: int|
            0 <= i < j < self.text_assets().len() ==> (#[trigger] self.text_assets()[i]).info.name@
                != (#[trigger] self.text_assets()[j]).info.name@
        &&& forall|i: int|
            0 <= i < self.binary_assets().len() ==> (#[trigger] self.binary_assets()[i]).wf()
    }

    /// A registry with no assets yet.
    pub fn new(name: String) -> (r: Registry)
        ensures
            r.wf(),
            r.spec_name() == name@,
            r.binary_assets().len() == 0,
            r.text_assets().len() == 0,
    {
        Registry { name, binary: Vec::new(), text: Vec::new() }
    }

    fn find_binary(&self, name: &str) -> (r: Option<usize>)
        ensures
            match r {
                Some(i) => i < self.binary_assets().len()
                    && self.binary_assets()[i as int].info.name@ == name@,
                None => !self.has_binary_named(name@),
            },
    {
        let n = self.binary.len();
        let mut i: usize = 0;
        while i < n
            invariant
                i <= n,
                n == self.binary_assets().len(),
                forall|j: int|
                    0 <= j < i ==> (#[trigger] self.binary_assets()[j]).info.name@ != name@,
            decreases n - i,
        {
            if str_eq(self.binary[i].info.name.as_str(), name) {
                return Some(i);
            }
            i = i + 1;
        }
        None
    }

    fn find_text(&self, name: &str) -> (r: Option<usize>)
        ensures
            match r {
                Some(i) => i < self.text_assets().len() && self.text_assets()[i as int].info.name@
                    == name@,
                None => !self.has_text_named(name@),
            },
    {
        let n = self.text.len();
        let mut i: usize = 0;
        while i < n
            invariant
                i <= n,
                n == self.text_assets().len(),
                forall|j: int| 0 <= j < i ==> (#[trigger] self.text_assets()[j]).info.name@ != name@,
            decreases n - i,
        {
            if str_eq(self.text[i].info.name.as_str(), name) {
                return Some(i);
            }
            i = i + 1;
        }
        None
    }

    /// Declare a binary asset: bind the content under the name and derive
    /// the metadata record, with the size taken from the content itself.
    /// Fails exactly when the name is already a binary name here, and then
    /// changes nothing.
    pub fn declare_binary_asset(
        &mut self,
        name: String,
        content: Vec<u8>,
        format: String,
        description: String,
    ) -> (r: Result<(), RegistryError>)
        requires
            old(self).wf(),
        ensures
            final(self).wf(),
            final(self).spec_name() == old(self).spec_name(),
            final(self).text_assets() == old(self).text_assets(),
            old(self).has_binary_named(name@) ==> r == Err::<(), RegistryError>(
                RegistryError::DuplicateName,
            ) && final(self).binary_assets() == old(self).binary_assets(),
            !old(self).has_binary_named(name@) ==> r == Ok::<(), RegistryError>(())
                && final(self).binary_assets() == old(self).binary_assets().push(
                (BinaryAsset {
                    content: content,
                    info: (AssetInfo {
                        name: name,
                        size: content@.len() as usize,
                        format: format,
                        description: description,
                    }),
                }),
            ),
    {
        match self.find_binary(name.as_str()) {
            Some(_) => Err(RegistryError::DuplicateName),
            None => {
                let ghost name_v = name@;
                let size = content.len();
                self.binary.push(
                    BinaryAsset {
                        content,
                        info: AssetInfo { name, size, format, description },
                    },
                );
                proof {
                    let oldb = old(self).binary_assets();
                    let newb = self.binary_assets();
                    assert forall|i: int, j: int| 0 <= i < j < newb.len() implies (
                    #[trigger] newb[i]).info.name@ != (#[trigger] newb[j]).info.name@ by {
                        assert(newb[i] == oldb[i]);
                        if j < oldb.len() {
                            assert(newb[j] == oldb[j]);
                        } else {
                            assert(newb[j].info.name@ == name_v);
                            assert(oldb[i].info.name@ != name_v);
                        }
                    }
                    assert forall|i: int| 0 <= i < newb.len() implies (#[trigger] newb[i]).wf() by {
                        if i < oldb.len() {
                            assert(newb[i] == oldb[i]);
                        }
                    }
                    assert(self.text_assets() == old(self).text_assets());
                    assert forall|i: int, j: int|
                        0 <= i < j < self.text_assets().len() implies (
                    #[trigger] self.text_assets()[i]).info.name@ != (
                    #[trigger] self.text_assets()[j]).info.name@ by {
                        assert(self.text_assets()[i] == old(self).text_assets()[i]);
                        assert(self.text_assets()[j] == old(self).text_assets()[j]);
                    }
                }
                Ok(())
            },
        }
    }

    /// Declare a text asset: bind the content under the name and derive the
    /// metadata record. Fails exactly when the name is already a text name
    /// here, and then changes nothing.
    pub fn declare_text_asset(&mut self, name: String, content: String, description: String) -> (r:
        Result<(), RegistryError>)
        requires
            old(self).wf(),
        ensures
            final(self).wf(),
            final(self).spec_name() == old(self).spec_name(),
            final(self).binary_assets() == old(self).binary_assets(),
            old(self).has_text_named(name@) ==> r == Err::<(), RegistryError>(
                RegistryError::DuplicateName,
            ) && final(self).text_assets() == old(self).text_assets(),
            !old(self).has_text_named(name@) ==> r == Ok::<(), RegistryError>(())
                && final(self).text_assets() == old(self).text_assets().push(
                (TextAsset {
                    content: content,
                    info: (TextAssetInfo { name: name, description: description }),
                }),
            ),
    {
        match self.find_text(name.as_str()) {
            Some(_) => Err(RegistryError::DuplicateName),
            None => {
                let ghost name_v = name@;
                self.text.push(
                    TextAsset { content, info: TextAssetInfo { name, description } },
                );
                proof {
                    let oldt = old(self).text_assets();
                    let newt = self.text_assets();
                    assert forall|i: int, j: int| 0 <= i < j < newt.len() implies (
                    #[trigger] newt[i]).info.name@ != (#[trigger] newt[j]).info.name@ by {
                        assert(newt[i] == oldt[i]);
                        if j < oldt.len() {
                            assert(newt[j] == oldt[j]);
                        } else {
                            assert(newt[j].info.name@ == name_v);
                            assert(oldt[i].info.name@ != name_v);
                        }
                    }
                    assert(self.binary_assets() == old(self).binary_assets());
                    assert forall|i: int, j: int|
                        0 <= i < j < self.binary_assets().len() implies (
                    #[trigger] self.binary_assets()[i]).info.name@ != (
                    #[trigger] self.binary_assets()[j]).info.name@ by {
                        assert(self.binary_assets()[i] == old(self).binary_assets()[i]);
                        assert(self.binary_assets()[j] == old(self).binary_assets()[j]);
                    }
                    assert forall|i: int|
                        0 <= i < self.binary_assets().len() implies (
                    #[trigger] self.binary_assets()[i]).wf() by {
                        assert(self.binary_assets()[i] == old(self).binary_assets()[i]);
                    }
                }
                Ok(())
            },
        }
    }

    /// Fresh copies of all binary metadata records, in declaration order.
    pub fn list_binary_assets(&self) -> (r: Vec<AssetInfo>)
        ensures
            r@.len() == self.binary_assets().len(),
            forall|i: int|
                0 <= i < r@.len() ==> r@[i] == (#[trigger] self.binary_assets()[i]).info,
    {
        let n = self.binary.len();
        let mut r: Vec<AssetInfo> = Vec::new();
        let mut i: usize = 0;
        while i < n
            invariant
                i <= n,
                n == self.binary_assets().len(),
                r@.len() == i,
                forall|j: int|
                    0 <= j < i ==> r@[j] == (#[trigger] self.binary_assets()[j]).info,
            decreases n - i,
        {
            let info = &self.binary[i].info;
            r.push(
                AssetInfo {
                    name: info.name.clone(),
                    size: info.size,
                    format: info.format.clone(),
                    description: info.description.clone(),
                },
            );
            i = i + 1;
        }
        r
    }

    /// Fresh copies of all text metadata records, in declaration order.
    pub fn list_text_assets(&self) -> (r: Vec<TextAssetInfo>)
        ensures
            r@.len() == self.text_assets().len(),
            forall|i: int| 0 <= i < r@.len() ==> r@[i] == (#[trigger] self.text_assets()[i]).info,
    {
        let n = self.text.len();
        let mut r: Vec<TextAssetInfo> = Vec::new();
        let mut i: usize = 0;
        while i < n
            invariant
                i <= n,
                n == self.text_assets().len(),
                r@.len() == i,
                forall|j: int| 0 <= j < i ==> r@[j] == (#[trigger] self.text_assets()[j]).info,
            decreases n - i,
        {
            let info = &self.text[i].info;
            r.push(TextAssetInfo { name: info.name.clone(), description: info.description.clone() });
            i = i + 1;
        }
        r
    }
}

fn copy_bytes(v: &Vec<u8>) -> (r: Vec<u8>)
    ensures
        r@ == v@,
{
    let n = v.len();
    let mut r: Vec<u8> = Vec::new();
    let mut i: usize = 0;
    while i < n
        invariant
            i <= n,
            n == v@.len(),
            r@ == v@.take(i as int),
        decreases n - i,
    {
        r.push(v[i]);
        proof {
            assert(v@.take(i + 1) =~= v@.take(i as int).push(v@[i as int]));
        }
        i = i + 1;
    }
    proof {
        assert(v@.take(n as int) =~= v@);
    }
    r
}

/// Declare every requested asset of both kinds into one registry, under the
/// given registry name, in the given order. Succeeds exactly when the
/// requested binary names are distinct and the requested text names are
/// distinct; a binary and a text asset may share a name.
pub fn create_registry(
    name: String,
    binary_specs: Vec<BinarySpec>,
    text_specs: Vec<TextSpec>,
) -> (r: Result<Registry, RegistryError>)
    ensures
        r is Ok <==> (binary_names_distinct(binary_specs@) && text_names_distinct(text_specs@)),
        match r {
            Ok(reg) => {
                &&& reg.wf()
                &&& reg.spec_name() == name@
                &&& reg.binary_assets().len() == binary_specs@.len()
                &&& forall|i: int|
                    0 <= i < binary_specs@.len() ==> binary_matches_spec(
                        #[trigger] reg.binary_assets()[i],
                        binary_specs@[i],
                    )
                &&& reg.text_assets().len() == text_specs@.len()
                &&& forall|i: int|
                    0 <= i < text_specs@.len() ==> text_matches_spec(
                        #[trigger] reg.text_assets()[i],
                        text_specs@[i],
                    )
            },
            Err(e) => e == RegistryError::DuplicateName,
        },
{
    let mut reg = Registry::new(name);
    let nb = binary_specs.len();
    let mut i: usize = 0;
    while i < nb
        invariant
            i <= nb,
            nb == binary_specs@.len(),
            reg.wf(),
            reg.spec_name() == name@,
            reg.text_assets().len() == 0,
            reg.binary_assets().len() == i,
            forall|j: int|
                0 <= j < i ==> binary_matches_spec(
                    #[trigger] reg.binary_assets()[j],
                    binary_specs@[j],
                ),
        decreases nb - i,
    {
        let s = &binary_specs[i];
        let content = copy_bytes(&s.content);
        let declared = reg.declare_binary_asset(
            s.name.clone(),
            content,
            s.format.clone(),
            s.description.clone(),
        );
        if declared.is_err() {
            proof {
                let ghost k = choose|k: int|
                    0 <= k < reg.binary_assets().len() && (#[trigger] reg.binary_assets()[k]).info.name@
                        == binary_specs@[i as int].name@;
                assert(binary_specs@[k].name@ == binary_specs@[i as int].name@);
                assert(!binary_names_distinct(binary_specs@));
            }
            return Err(RegistryError::DuplicateName);
        }
        i = i + 1;
    }
    let nt = text_specs.len();
    let mut k: usize = 0;
    while k < nt
        invariant
            k <= nt,
            nt == text_specs@.len(),
            nb == binary_specs@.len(),
            reg.wf(),
            reg.spec_name() == name@,
            reg.binary_assets().len() == nb,
            forall|j: int|
                0 <= j < nb ==> binary_matches_spec(
                    #[trigger] reg.binary_assets()[j],
                    binary_specs@[j],
                ),
            reg.text_assets().len() == k,
            forall|j: int|
                0 <= j < k ==> text_matches_spec(#[trigger] reg.text_assets()[j], text_specs@[j]),
        decreases nt - k,
    {
        let s = &text_specs[k];
        let declared = reg.declare_text_asset(
            s.name.clone(),
            s.content.clone(),
            s.description.clone(),
        );
        if declared.is_err() {
            proof {
                let ghost m = choose|m: int|
                    0 <= m < reg.text_assets().len() && (#[trigger] reg.text_assets()[m]).info.name@
                        == text_specs@[k as int].name@;
                assert(text_specs@[m].name@ == text_specs@[k as int].name@);
                assert(!text_names_distinct(text_specs@));
            }
            return Err(RegistryError::DuplicateName);
        }
        k = k + 1;
    }
    proof {
        assert forall|i1: int, j1: int| 0 <= i1 < j1 < binary_specs@.len() implies (
        #[trigger] binary_specs@[i1]).name@ != (#[trigger] binary_specs@[j1]).name@ by {
            assert(binary_matches_spec(reg.binary_assets()[i1], binary_specs@[i1]));
            assert(binary_matches_spec(reg.binary_assets()[j1], binary_specs@[j1]));
        }
        assert forall|i1: int, j1: int| 0 <= i1 < j1 < text_specs@.len() implies (
        #[trigger] text_specs@[i1]).name@ != (#[trigger] text_specs@[j1]).name@ by {
            assert(text_matches_spec(reg.text_assets()[i1], text_specs@[i1]));
            assert(text_matches_spec(reg.text_assets()[j1], text_specs@[j1]));
        }
    }
    Ok(reg)
}

/// Retrieval of a declared asset's content, or of all asset names, by name.
pub trait AssetRetriever {
    fn get_binary_asset<'a>(&'a self, name: &str) -> Option<&'a [u8]>;

    fn get_text_asset<'a>(&'a self, name: &str) -> Option<&'a str>;

    fn list_assets(&self) -> Vec<String>;
}

impl AssetRetriever for Registry {
    /// The content of the binary asset with this name; `None` exactly when
    /// no binary asset carries it.
    fn get_binary_asset<'a>(&'a self, name: &str) -> (r: Option<&'a [u8]>)
        ensures
            match r {
                Some(c) => exists|i: int|
                    0 <= i < self.binary_assets().len() && (#[trigger] self.binary_assets()[i]).info.name@
                        == name@ && c@ == self.binary_assets()[i].content@,
                None => !self.has_binary_named(name@),
            },
    {
        match self.find_binary(name) {
            Some(i) => Some(self.binary[i].content.as_slice()),
            None => None,
        }
    }

    /// The content of the text asset with this name; `None` exactly when no
    /// text asset carries it.
    fn get_text_asset<'a>(&'a self, name: &str) -> (r: Option<&'a str>)
        ensures
            match r {
                Some(c) => exists|i: int|
                    0 <= i < self.text_assets().len() && (#[trigger] self.text_assets()[i]).info.name@
                        == name@ && c@ == self.text_assets()[i].content@,
                None => !self.has_text_named(name@),
            },
    {
        match self.find_text(name) {
            Some(i) => Some(self.text[i].content.as_str()),
            None => None,
        }
    }

    /// All asset names: the binary names in declaration order, then the text
    /// names in declaration order.
    fn list_assets(&self) -> (r: Vec<String>)
        ensures
            r@.len() == self.binary_assets().len() + self.text_assets().len(),
            forall|i: int|
                0 <= i < self.binary_assets().len() ==> r@[i]@ == (
                #[trigger] self.binary_assets()[i]).info.name@,
            forall|i: int|
                0 <= i < self.text_assets().len() ==> r@[self.binary_assets().len() + i]@ == (
                #[trigger] self.text_assets()[i]).info.name@,
    {
        let nb = self.binary.len();
        let nt = self.text.len();
        let mut r: Vec<String> = Vec::new();
        let mut i: usize = 0;
        while i < nb
            invariant
                i <= nb,
                nb == self.binary_assets().len(),
                r@.len() == i,
                forall|j: int|
                    0 <= j < i ==> r@[j]@ == (#[trigger] self.binary_assets()[j]).info.name@,
            decreases nb - i,
        {
            r.push(self.binary[i].info.name.clone());
            i = i + 1;
        }
        let mut k: usize = 0;
        while k < nt
            invariant
                k <= nt,
                nb == self.binary_assets().len(),
                nt == self.text_assets().len(),
                r@.len() == nb + k,
                forall|j: int|
                    0 <= j < nb ==> r@[j]@ == (#[trigger] self.binary_assets()[j]).info.name@,
                forall|j: int|
                    0 <= j < k ==> r@[nb + j]@ == (#[trigger] self.text_assets()[j]).info.name@,
            decreases nt - k,
        {
            r.push(self.text[k].info.name.clone());
            k = k + 1;
        }
        r
    }
}

/// For a registry whose assets were declared from requested specs, the
/// enumerations hold one metadata record per spec, in the same order, each
/// under its spec's declared name.
pub proof fn lemma_listing_matches_specs(
    reg: &Registry,
    binary_specs: Seq<BinarySpec>,
    text_specs: Seq<TextSpec>,
)
    requires
        reg.binary_assets().len() == binary_specs.len(),
        forall|i: int|
            0 <= i < binary_specs.len() ==> binary_matches_spec(
                #[trigger] reg.binary_assets()[i],
                binary_specs[i],
            ),
        reg.text_assets().len() == text_specs.len(),
        forall|i: int|
            0 <= i < text_specs.len() ==> text_matches_spec(
                #[trigger] reg.text_assets()[i],
                text_specs[i],
            ),
    ensures
        forall|i: int|
            0 <= i < binary_specs.len() ==> (#[trigger] reg.binary_assets()[i]).info.name@
                == binary_specs[i].name@,
        forall|i: int|
            0 <= i < text_specs.len() ==> (#[trigger] reg.text_assets()[i]).info.name@
                == text_specs[i].name@,
{
}

/// For all successfully declared binary assets of a well-formed registry,
/// the recorded size equals the content's actual length.
pub proof fn lemma_sizes_accurate(r: &Registry)
    requires
        r.wf(),
    ensures
        forall|i: int|
            0 <= i < r.binary_assets().len() ==> (#[trigger] r.binary_assets()[i]).info.size == r.binary_assets()[i].content@.len(),
{
}

} // verus!
