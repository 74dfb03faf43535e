use vstd::prelude::*;
use crate::manifest::{Metadata, MetadataView};
use crate::strutil::{fmt_dec, render_dec};

verus! {

/// One `key=value` line of the metadata file, for a field that is present;
/// an absent field produces nothing, never an empty line.
pub open spec fn opt_field_line(prefix: Seq<char>, v: Option<Seq<char>>) -> Seq<char> {
    match v {
        Some(x) => prefix + x + "\n"@,
        None => seq![],
    }
}

/// The metadata file's text: one `key=value` line per present field, in
/// fixed order — name, author, description, bundle id, version, build
/// number, image path, launch-sound path.
pub open spec fn pdxinfo_of(m: MetadataView) -> Seq<char> {
    opt_field_line("name="@, m.name) + opt_field_line("author="@, m.author) + opt_field_line(
        "description="@,
        m.description,
    ) + opt_field_line("bundleID="@, m.bundle_id) + opt_field_line("version="@, m.version)
        + opt_field_line(
        "buildNumber="@,
        match m.build_number {
            Some(n) => Some(render_dec(n)),
            None => None,
        },
    ) + opt_field_line("imagePath="@, m.image_path) + opt_field_line(
        "launchSoundPath="@,
        m.launch_sound_path,
    )
}

/// Appends one optional field's line.
fn append_field(s: &mut String, prefix: &str, v: &Option<String>)
    ensures
        final(s)@ == old(s)@ + opt_field_line(prefix@, v.deep_view()),
{
    match v {
        Some(x) => {
            s.append(prefix);
            s.append(x.as_str());
            s.append("\n");
        },
        None => {
            proof {
                assert(old(s)@ + opt_field_line(prefix@, v.deep_view()) =~= old(s)@);
            }
        },
    }
}

/// Renders the metadata file.
pub fn render_pdxinfo(m: &Metadata) -> (r: String)
    ensures
        r@ == pdxinfo_of(m@),
{
    let mut s = String::new();
    append_field(&mut s, "name=", &m.name);
    append_field(&mut s, "author=", &m.author);
    append_field(&mut s, "description=", &m.description);
    append_field(&mut s, "bundleID=", &m.bundle_id);
    append_field(&mut s, "version=", &m.version);
    match &m.build_number {
        Some(n) => {
            s.append("buildNumber=");
            let num = fmt_dec(*n);
            s.append(num.as_str());
            s.append("\n");
        },
        None => {},
    }
    append_field(&mut s, "imagePath=", &m.image_path);
    append_field(&mut s, "launchSoundPath=", &m.launch_sound_path);
    proof {
        assert(s@ =~= pdxinfo_of(m@));
    }
    s
}

} // verus!
