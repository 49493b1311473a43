use vstd::prelude::*;
use vstd::string::*;

verus! {

/// `items` joined with `sep` between each two.
pub open spec fn joined(items: Seq<Seq<char>>, sep: Seq<char>) -> Seq<char>
    decreases items.len(),
{
    if items.len() == 0 {
        Seq::empty()
    } else if items.len() == 1 {
        items[0]
    } else {
        joined(items.drop_last(), sep) + sep + items.last()
    }
}

/// The views of `items`.
pub open spec fn views(items: Seq<&str>) -> Seq<Seq<char>> {
    items.map_values(|s: &str| s@)
}

/// `items` joined with `sep` between each two.
pub fn join(items: &[&str], sep: &str) -> (r: String)
    ensures
        r@ == joined(views(items@), sep@),
{
    let mut out = String::new();
    let mut i: usize = 0;
    while i < items.len()
        invariant
            i <= items@.len(),
            out@ == joined(views(items@.subrange(0, i as int)), sep@),
        decreases items@.len() - i,
    {
        let ghost before = views(items@.subrange(0, i as int));
        if i > 0 {
            out.append(sep);
        }
        out.append(items[i]);
        i = i + 1;
        proof {
            let now = views(items@.subrange(0, i as int));
            assert(now.drop_last() =~= before);
            assert(now.last() == items@[i - 1]@);
            if i == 1 {
                assert(before.len() == 0);
            }
        }
    }
    assert(items@.subrange(0, i as int) =~= items@);
    out
}

/// The configuration file formats this build reads.
pub fn config_formats() -> (r: Vec<&'static str>)
    ensures
        r@ == seq!["JSON"],
{
    let mut formats: Vec<&'static str> = Vec::new();
    formats.push("JSON");
    formats
}

/// Help text of the configuration-file argument, naming the formats read.
pub fn get_config_help() -> (r: String)
    ensures
        r@ == "Name of config file (in a format of: JSON)"@,
{
    let formats = config_formats();
    let list = join(formats.as_slice(), ", ");
    proof {
        assert(views(seq!["JSON"]) =~= seq!["JSON"@]);
    }
    let r = String::from_str("Name of config file (in a format of: ").concat(list.as_str()).concat(
        ")",
    );
    proof {
        reveal_strlit("Name of config file (in a format of: ");
        reveal_strlit("JSON");
        reveal_strlit(")");
        reveal_strlit("Name of config file (in a format of: JSON)");
        assert(r@ =~= "Name of config file (in a format of: JSON)"@);
    }
    r
}

} // verus!
