use cbnb_node::api::{route, route_request, Dispatch, RunMode};
use cbnb_node::message::ServiceMsgType::{SERVICEINIT, SERVICEMANAGE, SERVICEUPDATE};
use cbnb_node::message::ServiceType::{Faas, Paas, Storage as StorageService};
use cbnb_node::service::paas::{deploy_message, qemu_command, qemu_folder};
use cbnb_node::service::storage::{
    read_reply, read_request, write_reply, write_request_size, WriteProgress, READ_BUFFER_LEN,
};
use cbnb_node::service::{Service, ServiceData, Storage};

#[test]
fn fresh_service() {
    let s = Service::new();
    for m in [&s.paas.metadata, &s.storage.metadata, &s.faas.metadata].iter() {
        assert_eq!(m.instance_count, 0);
        assert_eq!(m.last_updated, (String::new(), String::new()));
        assert_eq!(m.current_block_offset, 0);
    }
    assert!(s.faas.instances.is_empty());
    let d: ServiceData<Storage> = ServiceData::new();
    assert!(d.instances.is_empty());
    assert_eq!(d.metadata.instance_count, 0);
}

#[test]
fn storage_writes_are_laid_end_to_end() {
    let mut s = Service::new();
    assert_eq!(s.record_storage_write(100), 0);
    assert_eq!(s.record_storage_write(50), 100);
    assert_eq!(s.record_storage_write(0), 150);
    assert_eq!(s.record_storage_write(7), 150);
    assert_eq!(s.storage.metadata.current_block_offset, 157);
    assert_eq!(s.storage.metadata.instance_count, 4);
    assert_eq!(s.faas.metadata.instance_count, 0);
}

#[test]
fn read_after_write_example() {
    // a block file that holds 3 bytes, then a write of 4 bytes, then 2 more
    let mut s = Service::new();
    let mut file: Vec<u8> = vec![9, 9, 9];
    s.record_storage_write(3);
    let data = vec![1u8, 2, 3, 4];
    let off = s.record_storage_write(data.len() as u64);
    file.extend_from_slice(&data);
    file.extend_from_slice(&[5, 6]);
    assert_eq!(off, 3);
    let got = &file[off as usize..];
    assert_eq!(read_reply(got, data.len() as u64), data);
}

#[test]
fn read_replies() {
    assert_eq!(read_reply(&[1, 2, 3], 2), vec![1, 2]);
    assert_eq!(read_reply(&[1, 2], 5), vec![1, 2, 0, 0, 0]);
    assert_eq!(read_reply(&[], 0), Vec::<u8>::new());
    assert_eq!(read_reply(&[1], READ_BUFFER_LEN as u64).len(), READ_BUFFER_LEN);
}

#[test]
fn write_progress_and_reply() {
    let mut p = WriteProgress::new(5000);
    assert!(!p.received(2048));
    assert!(!p.received(2048));
    assert!(p.received(904));
    assert_eq!(p.total, 5000);
    let mut q = WriteProgress::new(0);
    assert!(q.received(0));
    assert_eq!(write_reply(157, 4096), "{\"blockno\":\"no\",\"index\":0,\"offset\":157,\"size\":4096}");
    assert_eq!(write_reply(0, 0), "{\"blockno\":\"no\",\"index\":0,\"offset\":0,\"size\":0}");
}

#[test]
fn run_modes_and_addresses() {
    assert_eq!(RunMode::parse("TEST"), RunMode::Test);
    assert_eq!(RunMode::parse("DEV"), RunMode::Dev);
    assert!(RunMode::is_named("TEST") && RunMode::is_named("DEV"));
    assert!(!RunMode::is_named("dev"));
    assert!(!RunMode::is_named(""));
    assert_eq!(RunMode::Test.server_address(), "172.28.5.77:7779");
    assert_eq!(RunMode::Dev.server_address(), "127.0.0.1:7779");
}

#[test]
fn request_routing() {
    assert_eq!(route(SERVICEINIT, Faas, None), Dispatch::InitFunction);
    assert_eq!(route(SERVICEINIT, StorageService, Some("read")), Dispatch::StorageRead);
    assert_eq!(route(SERVICEINIT, StorageService, Some("write")), Dispatch::StorageWrite);
    assert_eq!(route(SERVICEINIT, StorageService, Some("other")), Dispatch::Nothing);
    assert_eq!(route(SERVICEINIT, Paas, Some("deploy")), Dispatch::DeployApp);
    assert_eq!(route(SERVICEINIT, Paas, Some("start")), Dispatch::Nothing);
    assert_eq!(route(SERVICEUPDATE, Faas, None), Dispatch::UpdateFunction);
    assert_eq!(route(SERVICEUPDATE, Paas, None), Dispatch::Nothing);
    assert_eq!(route(SERVICEUPDATE, StorageService, Some("read")), Dispatch::Nothing);
    assert_eq!(route(SERVICEMANAGE, Paas, Some("start")), Dispatch::StartVm);
    assert_eq!(route(SERVICEMANAGE, Paas, Some("deploy")), Dispatch::Nothing);
    assert_eq!(route(SERVICEMANAGE, Faas, None), Dispatch::Nothing);
    assert_eq!(route(SERVICEMANAGE, StorageService, None), Dispatch::Nothing);
    assert_eq!(route_request(SERVICEINIT, StorageService, "{\"msg_type\":\"read\"}"), Some(Dispatch::StorageRead));
    assert_eq!(route_request(SERVICEINIT, StorageService, "{\"msg_type\":3}"), None);
    assert_eq!(route_request(SERVICEINIT, StorageService, "{}"), None);
    assert_eq!(route_request(SERVICEINIT, Paas, "{\"msg_type\":\"deploy\",\"x\":1}"), Some(Dispatch::DeployApp));
    assert_eq!(route_request(SERVICEMANAGE, Paas, "[1,2]"), None);
    assert_eq!(route_request(SERVICEINIT, Faas, "{}"), Some(Dispatch::InitFunction));
    assert_eq!(route_request(SERVICEMANAGE, Paas, "{\"msg_type\":\"start\"}"), Some(Dispatch::StartVm));
    assert_eq!(route_request(SERVICEINIT, Faas, "not json"), None);
    assert_eq!(route_request(SERVICEUPDATE, StorageService, "{\"msg_type\":null}"), Some(Dispatch::Nothing));
}

#[test]
fn dispatch_bookkeeping() {
    let mut s = Service::new();
    s.record_dispatch(Dispatch::InitFunction);
    s.record_dispatch(Dispatch::DeployApp);
    s.record_dispatch(Dispatch::UpdateFunction);
    s.record_dispatch(Dispatch::StorageWrite);
    s.record_dispatch(Dispatch::StartVm);
    assert_eq!(s.faas.metadata.instance_count, 2);
    assert_eq!(s.paas.metadata.instance_count, 0);
    assert_eq!(s.storage.metadata.instance_count, 0);
}

#[test]
fn qemu_launch_command() {
    assert_eq!(qemu_folder(RunMode::Test), "/qemufolder/");
    let (cmd, args) = qemu_command(RunMode::Test);
    assert_eq!(
        cmd,
        "qemu-system-x86_64 -M pc -m 2048 -smp 4 -monitor pty -nographic -hda /qemufolder/xenial_base.img -drive file=/qemufolder/debian-seed.img,if=virtio,format=raw -enable-kvm -netdev user,hostname=be5d9d96fd08,hostfwd=tcp::55555-:22,hostfwd=tcp:0.0.0.0:7070-:8080,id=net -device virtio-net-pci,netdev=net -vnc :0 -serial stdio"
    );
    assert_eq!(args[0], "qemu-system-x86_64");
    assert_eq!(args.len(), 23);
    assert_eq!(args.join(" "), cmd);
    let (dev_cmd, _) = qemu_command(RunMode::Dev);
    assert!(dev_cmd.contains("-hda /home/number7/Desktop/PROJECTS/CloudBnB_Root/DockerInfra/qemufolder/xenial_base.img"));
}

#[test]
fn request_contents() {
    let read = "{\"metadata\":{\"offset\":12,\"size\":34,\"index\":0,\"blockno\":\"no\"}}";
    assert_eq!(read_request(read), Some((12, 34)));
    assert_eq!(read_request("{\"metadata\":{\"offset\":12,\"size\":34,\"index\":0}}"), None);
    assert_eq!(read_request("{\"metadata\":{\"offset\":-1,\"size\":34,\"index\":0,\"blockno\":\"no\"}}"), None);
    assert_eq!(read_request("{\"offset\":12,\"size\":34,\"index\":0,\"blockno\":\"no\"}"), None);
    assert_eq!(read_request("nope"), None);
    assert_eq!(write_request_size("{\"msg_type\":\"write\",\"size\":4096}"), Some(4096));
    assert_eq!(write_request_size("{\"size\":7}"), Some(7));
    assert_eq!(write_request_size("{\"size\":\"4096\"}"), None);
    assert_eq!(write_request_size("{"), None);
    assert_eq!(deploy_message("{ \"msg_type\" : \"deploy\",\n \"a\": [1, 2] }"), Some("{\"a\":[1,2],\"msg_type\":\"deploy\"}".to_string()));
    assert_eq!(deploy_message("{"), None);
    assert_eq!(deploy_message("[1, true]"), Some("[1,true]".to_string()));
}

#[test]
fn request_bookkeeping_example() {
    let mut s = Service::new();
    s.record_dispatch(Dispatch::StartVm);
    assert_eq!(s.faas.metadata.instance_count + s.storage.metadata.instance_count + s.paas.metadata.instance_count, 0);
    s.record_storage_write(10);
    assert_eq!(s.storage.metadata.instance_count, 1);
    assert_eq!(s.faas.metadata.instance_count, 0);
    assert_eq!(s.storage.metadata.last_updated, (String::new(), String::new()));
    assert!(s.storage.instances.is_empty());
}
