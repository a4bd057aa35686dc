//! Stations: the seed nodes that keep a Constellation going.

use vstd::prelude::*;

use crate::beacon;
use crate::beacon::Beacon;
use crate::console;
use crate::console::Line;
use crate::encoding;
use crate::satellite::NodeId;

verus! {

/// What a Station prints when it has created a Constellation.
pub open spec fn initialized_text(
    beacon: Seq<u8>,
    id: Seq<u8>,
    document_id: Seq<char>,
) -> Seq<console::LineView> {
    let share = "ORBIT_BEACON="@ + beacon::beacon_text(beacon);
    seq![
        console::out(share),
        console::err(""@),
        console::err(
            "Constellation initialized! Share the beacon with Satellites and Mission Control:"@,
        ),
        console::err("  "@ + share),
        console::err(""@),
        console::err(
            "Station node ID: PublicKey("@ + encoding::ascii_text(encoding::hex(id)) + ")"@,
        ),
        console::err("Document ID: "@ + document_id),
        console::err(""@),
        console::err("Station is listening... (Ctrl+C to stop)"@),
    ]
}

/// What a Station prints when it has created a Constellation. The Beacon alone goes to the
/// standard output.
pub fn initialized_lines(beacon: &Beacon, node: &NodeId, document_id: &str) -> (lines: Vec<Line>)
    ensures
        console::printed(lines@) == initialized_text(beacon@, node@, document_id@),
{
    let share: String = "ORBIT_BEACON=".to_owned().concat(beacon.to_string().as_str());
    let lines: Vec<Line> = vec![
        Line::Stdout(share.clone()),
        Line::Stderr("".to_owned()),
        Line::Stderr(
            "Constellation initialized! Share the beacon with Satellites and Mission Control:".to_owned(),
        ),
        Line::Stderr("  ".to_owned().concat(share.as_str())),
        Line::Stderr("".to_owned()),
        Line::Stderr(
            "Station node ID: PublicKey(".to_owned().concat(
                encoding::hex_encode(node.as_bytes()).as_str(),
            ).concat(")"),
        ),
        Line::Stderr("Document ID: ".to_owned().concat(document_id)),
        Line::Stderr("".to_owned()),
        Line::Stderr("Station is listening... (Ctrl+C to stop)".to_owned()),
    ];
    assert(console::printed(lines@) =~= initialized_text(beacon@, node@, document_id@));
    lines
}

/// What a Station prints when it has joined a Constellation.
pub open spec fn joined_text(document_id: Seq<char>) -> Seq<console::LineView> {
    seq![
        console::err("Backup station joined the Constellation."@),
        console::err("Document ID: "@ + document_id),
        console::err(""@),
        console::err("Backup station is listening... (Ctrl+C to stop)"@),
    ]
}

/// What a Station prints when it has joined a Constellation.
pub fn joined_lines(document_id: &str) -> (lines: Vec<Line>)
    ensures
        console::printed(lines@) == joined_text(document_id@),
{
    let lines: Vec<Line> = vec![
        Line::Stderr("Backup station joined the Constellation.".to_owned()),
        Line::Stderr("Document ID: ".to_owned().concat(document_id)),
        Line::Stderr("".to_owned()),
        Line::Stderr("Backup station is listening... (Ctrl+C to stop)".to_owned()),
    ];
    assert(console::printed(lines@) =~= joined_text(document_id@));
    lines
}

/// A Station that has created a Constellation prints the Beacon, in the form in which it is read
/// back from the environment, as the only line on the standard output; everything else, with the
/// Beacon once more, the node and the document, goes to the standard error.
pub proof fn the_beacon_alone_is_the_output(
    beacon: Seq<u8>,
    id: Seq<u8>,
    document_id: Seq<char>,
)
    ensures
        ({
            let lines = initialized_text(beacon, id, document_id);
            &&& lines.len() == 9
            &&& forall|i: int| 0 <= i < 9 ==> ((#[trigger] lines[i]).to_stdout <==> i == 0)
            &&& lines[0].text == "ORBIT_BEACON="@ + beacon::beacon_text(beacon)
            &&& lines[1].text == ""@
            &&& lines[2].text
                == "Constellation initialized! Share the beacon with Satellites and Mission Control:"@
            &&& lines[3].text == "  "@ + ("ORBIT_BEACON="@ + beacon::beacon_text(beacon))
            &&& lines[4].text == ""@
            &&& lines[5].text == "Station node ID: PublicKey("@ + encoding::ascii_text(
                encoding::hex(id),
            ) + ")"@
            &&& lines[6].text == "Document ID: "@ + document_id
            &&& lines[7].text == ""@
            &&& lines[8].text == "Station is listening... (Ctrl+C to stop)"@
        }),
{
}

/// A Station that has joined a Constellation names the document, and prints nothing on the
/// standard output.
pub proof fn joining_names_the_document(document_id: Seq<char>)
    ensures
        ({
            let lines = joined_text(document_id);
            &&& lines.len() == 4
            &&& forall|i: int| 0 <= i < 4 ==> !(#[trigger] lines[i]).to_stdout
            &&& lines[0].text == "Backup station joined the Constellation."@
            &&& lines[1].text == "Document ID: "@ + document_id
            &&& lines[2].text == ""@
            &&& lines[3].text == "Backup station is listening... (Ctrl+C to stop)"@
        }),
{
}

} // verus!
