//! The bytes of a package's `_meta` blob. The store only needs the blob to
//! be a deterministic function of the package's identity and its disabled
//! builds, so the rendering is defined here exactly, character by character.
//! Names are written into the attributes as given.

use vstd::prelude::*;
use vstd::slice::slice_to_vec;
use vstd::string::StringExecFns;
use vstd::utf8::encode_utf8;

use crate::types::MockPackageDisabledBuild;
use crate::types::MockSourceFile;

verus! {

/// The path every metadata blob is stored under.
pub open spec fn spec_meta_path() -> Seq<char> {
    "_meta"@
}

/// The `_meta` path as a value.
pub fn meta_path() -> (r: String)
    ensures
        r@ == spec_meta_path(),
{
    let r = String::from_str("_meta");
    r
}

/// One `disable` stanza.
pub open spec fn spec_disabled_xml(d: MockPackageDisabledBuild) -> Seq<char> {
    "<disable"@ + (match d.repository {
        Some(r) => " repository=\""@ + r@ + "\""@,
        None => Seq::<char>::empty(),
    }) + (match d.arch {
        Some(a) => " arch=\""@ + a@ + "\""@,
        None => Seq::<char>::empty(),
    }) + "/>"@
}

/// All `disable` stanzas, in order.
pub open spec fn spec_disabled_list_xml(ds: Seq<MockPackageDisabledBuild>) -> Seq<char>
    decreases ds.len(),
{
    if ds.len() == 0 {
        Seq::<char>::empty()
    } else {
        spec_disabled_list_xml(ds.drop_last()) + spec_disabled_xml(ds.last())
    }
}

/// The complete metadata document for a package.
pub open spec fn spec_meta_xml(
    project: Seq<char>,
    package: Seq<char>,
    disabled: Seq<MockPackageDisabledBuild>,
) -> Seq<char> {
    "<package project=\""@ + project + "\" name=\""@ + package + "\">"@
        + "<title/><description/>"@ + (if disabled.len() == 0 {
        Seq::<char>::empty()
    } else {
        "<build>"@ + spec_disabled_list_xml(disabled) + "</build>"@
    }) + "</package>"@
}

/// The metadata document, encoded as the bytes that are stored and hashed.
pub open spec fn spec_meta_bytes(
    project: Seq<char>,
    package: Seq<char>,
    disabled: Seq<MockPackageDisabledBuild>,
) -> Seq<u8> {
    encode_utf8(spec_meta_xml(project, package, disabled))
}

/// Renders the metadata document.
pub fn render_meta_xml(
    project: &String,
    package: &String,
    disabled: &Vec<MockPackageDisabledBuild>,
) -> (r: String)
    ensures
        r@ == spec_meta_xml(project@, package@, disabled@),
{
    let mut s = String::new();
    s.append("<package project=\"");
    s.append(project.as_str());
    s.append("\" name=\"");
    s.append(package.as_str());
    s.append("\">");
    s.append("<title/><description/>");
    if disabled.len() > 0 {
        s.append("<build>");
        let ghost head: Seq<char> = s@;
        let mut i: usize = 0;
        while i < disabled.len()
            invariant
                i <= disabled.len(),
                s@ == head + spec_disabled_list_xml(disabled@.take(i as int)),
            decreases disabled.len() - i,
        {
            s.append("<disable");
            match &disabled[i].repository {
                Some(r) => {
                    s.append(" repository=\"");
                    s.append(r.as_str());
                    s.append("\"");
                },
                None => {},
            }
            match &disabled[i].arch {
                Some(a) => {
                    s.append(" arch=\"");
                    s.append(a.as_str());
                    s.append("\"");
                },
                None => {},
            }
            s.append("/>");
            proof {
                let taken = disabled@.take(i + 1 as int);
                assert(taken.drop_last() =~= disabled@.take(i as int));
                assert(taken.last() == disabled@[i as int]);
                assert(s@ =~= head + spec_disabled_list_xml(disabled@.take(i + 1 as int)));
            }
            i = i + 1;
        }
        proof {
            assert(disabled@.take(disabled@.len() as int) =~= disabled@);
        }
        s.append("</build>");
    }
    s.append("</package>");
    proof {
        assert(s@ =~= spec_meta_xml(project@, package@, disabled@));
    }
    s
}

impl MockSourceFile {
    /// The metadata blob written for a package: the rendered document under
    /// the `_meta` path.
    pub fn new_metadata(
        project: &String,
        package: &String,
        disabled: &Vec<MockPackageDisabledBuild>,
    ) -> (r: MockSourceFile)
        ensures
            r.path@ == spec_meta_path(),
            r.contents@ == spec_meta_bytes(project@, package@, disabled@),
    {
        let xml = render_meta_xml(project, package, disabled);
        let contents = slice_to_vec(xml.as_str().as_bytes());
        MockSourceFile { path: meta_path(), contents }
    }
}

} // verus!
