//! Applications hosted in a virtual machine: the command that starts it.

use vstd::prelude::*;
use crate::api::RunMode;
use crate::json::{json_compact, parse_compact};
use crate::text::opt_view;
use crate::text::{join_pieces, lemma_split_join, push_str, split_on, split_pieces};

verus! {

/// The folder holding the VM images in a run mode.
pub open spec fn qemu_folder_spec(mode: RunMode) -> Seq<char> {
    match mode {
        RunMode::Test => "/qemufolder/"@,
        RunMode::Dev => "/home/number7/Desktop/PROJECTS/CloudBnB_Root/DockerInfra/qemufolder/"@,
    }
}

/// The command line that starts the VM: the disk image `xenial_base.img`
/// and the seed image `debian-seed.img`, both from `folder`.
pub open spec fn qemu_command_spec(folder: Seq<char>) -> Seq<char> {
    "qemu-system-x86_64 -M pc -m 2048 -smp 4 -monitor pty -nographic "@ + ("-hda "@ + folder
        + "xenial_base.img"@) + " "@ + ("-drive file="@ + folder + "debian-seed.img"@)
        + ",if=virtio,format=raw -enable-kvm -netdev user,hostname=be5d9d96fd08,hostfwd=tcp::55555-:22,hostfwd=tcp:0.0.0.0:7070-:8080,id=net -device virtio-net-pci,netdev=net -vnc :0 -serial stdio"@
}

/// Whether `part` occurs in `s`.
pub open spec fn occurs_in(part: Seq<char>, s: Seq<char>) -> bool {
    exists|i: int| 0 <= i && i + part.len() <= s.len() && #[trigger] s.skip(i).take(part.len() as int) == part
}

/// The folder holding the VM images.
pub fn qemu_folder(mode: RunMode) -> (r: &'static str)
    ensures
        r@ == qemu_folder_spec(mode),
{
    match mode {
        RunMode::Test => "/qemufolder/",
        RunMode::Dev => "/home/number7/Desktop/PROJECTS/CloudBnB_Root/DockerInfra/qemufolder/",
    }
}

/// The command line that starts the VM, and its words (the program first):
/// the command split at every space.
pub fn qemu_command(mode: RunMode) -> (r: (String, Vec<String>))
    ensures
        r.0@ == qemu_command_spec(qemu_folder_spec(mode)),
        r.1.deep_view() == split_pieces(r.0@, ' '),
        r.1@.len() > 0,
{
    let folder = qemu_folder(mode);
    let mut cmd = String::new();
    push_str(&mut cmd, "qemu-system-x86_64 -M pc -m 2048 -smp 4 -monitor pty -nographic ");
    push_str(&mut cmd, "-hda ");
    push_str(&mut cmd, folder);
    push_str(&mut cmd, "xenial_base.img");
    push_str(&mut cmd, " ");
    push_str(&mut cmd, "-drive file=");
    push_str(&mut cmd, folder);
    push_str(&mut cmd, "debian-seed.img");
    push_str(
        &mut cmd,
        ",if=virtio,format=raw -enable-kvm -netdev user,hostname=be5d9d96fd08,hostfwd=tcp::55555-:22,hostfwd=tcp:0.0.0.0:7070-:8080,id=net -device virtio-net-pci,netdev=net -vnc :0 -serial stdio",
    );
    assert(cmd@ =~= qemu_command_spec(qemu_folder_spec(mode)));
    let args = split_on(cmd.as_str(), ' ');
    assert(args@.len() == args.deep_view().len());
    (cmd, args)
}


/// What is forwarded to the VM for a deployment, where the content is JSON.
pub fn deploy_message(content: &str) -> (r: Option<String>)
    ensures
        opt_view(r) == json_compact(content@),
{
    parse_compact(content)
}

/// The words the VM is started with, joined by spaces, are exactly the
/// command line, and none of them holds a space.
pub proof fn lemma_qemu_words_rebuild_command(mode: RunMode)
    ensures
        join_pieces(split_pieces(qemu_command_spec(qemu_folder_spec(mode)), ' '), ' ')
            == qemu_command_spec(qemu_folder_spec(mode)),
        forall|i: int, j: int|
            0 <= i < split_pieces(qemu_command_spec(qemu_folder_spec(mode)), ' ').len() && 0 <= j
                < split_pieces(qemu_command_spec(qemu_folder_spec(mode)), ' ')[i].len()
                ==> split_pieces(qemu_command_spec(qemu_folder_spec(mode)), ' ')[i][j] != ' ',
{
    lemma_split_join(qemu_command_spec(qemu_folder_spec(mode)), ' ');
}

/// Both images the VM starts from come from the folder the command is
/// built for: the disk as `-hda <folder>xenial_base.img` and the seed as
/// `-drive file=<folder>debian-seed.img`.
pub proof fn lemma_qemu_images_from_folder(folder: Seq<char>)
    ensures
        occurs_in("-hda "@ + folder + "xenial_base.img"@, qemu_command_spec(folder)),
        occurs_in("-drive file="@ + folder + "debian-seed.img"@, qemu_command_spec(folder)),
{
    let head = "qemu-system-x86_64 -M pc -m 2048 -smp 4 -monitor pty -nographic "@;
    let disk = "-hda "@ + folder + "xenial_base.img"@;
    let seed = "-drive file="@ + folder + "debian-seed.img"@;
    let cmd = qemu_command_spec(folder);
    assert(cmd.skip(head.len() as int).take(disk.len() as int) =~= disk);
    let at: int = (head.len() + disk.len() + " "@.len()) as int;
    assert(cmd.skip(at).take(seed.len() as int) =~= seed);
}

} // verus!
