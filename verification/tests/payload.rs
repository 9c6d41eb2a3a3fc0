use vm_instance::payload::{
    add_microdroid_images, apex_partition_label, make_metadata, make_payload_disk, ApexInfo,
    ApexInfoList, PackageManager, PartitionImage, PartitionPlan, PayloadError,
};

fn apex(name: &str, path: &str) -> ApexInfo {
    ApexInfo { name: name.to_owned(), path: path.to_owned() }
}

fn installed() -> ApexInfoList {
    ApexInfoList {
        list: vec![
            apex("com.android.adbd", "/system/apex/com.android.adbd.apex"),
            apex("com.android.foo", "/system/apex/com.android.foo.apex"),
            apex("com.android.foo", "/data/apex/active/com.android.foo@2.apex"),
            apex("com.android.os.statsd", "/system/apex/com.android.os.statsd.apex"),
        ],
    }
}

fn plan(label: &str, image: PartitionImage, writable: bool) -> PartitionPlan {
    PartitionPlan { label: label.to_owned(), image, writable }
}

#[test]
fn path_of_an_installed_apex() {
    assert_eq!(
        installed().get_path_for("com.android.adbd"),
        Ok("/system/apex/com.android.adbd.apex".to_owned())
    );
    assert_eq!(
        installed().get_path_for("com.android.os.statsd"),
        Ok("/system/apex/com.android.os.statsd.apex".to_owned())
    );
}

#[test]
fn first_of_two_apexes_of_one_name_is_taken() {
    assert_eq!(
        installed().get_path_for("com.android.foo"),
        Ok("/system/apex/com.android.foo.apex".to_owned())
    );
}

#[test]
fn unknown_apex_is_not_found() {
    assert_eq!(installed().get_path_for("com.android.bar"), Err(PayloadError::ApexNotFound));
    assert_eq!(installed().get_path_for("com.android.fo"), Err(PayloadError::ApexNotFound));
    assert_eq!(installed().get_path_for(""), Err(PayloadError::ApexNotFound));
    assert_eq!(
        ApexInfoList { list: vec![] }.get_path_for("com.android.adbd"),
        Err(PayloadError::ApexNotFound)
    );
}

#[test]
fn staged_apex_is_taken_only_where_it_is_preferred() {
    let manager = PackageManager::new(installed());
    let staged = Some("/data/apex/staged/com.android.foo.apex".to_owned());
    assert_eq!(
        manager.get_apex_path("com.android.foo", true, staged.clone()),
        Ok("/data/apex/staged/com.android.foo.apex".to_owned())
    );
    assert_eq!(
        manager.get_apex_path("com.android.foo", false, staged.clone()),
        Ok("/system/apex/com.android.foo.apex".to_owned())
    );
    assert_eq!(
        manager.get_apex_path("com.android.foo", true, None),
        Ok("/system/apex/com.android.foo.apex".to_owned())
    );
    assert_eq!(
        manager.get_apex_path("com.android.bar", true, staged),
        Ok("/data/apex/staged/com.android.foo.apex".to_owned())
    );
    assert_eq!(
        manager.get_apex_path("com.android.bar", true, None),
        Err(PayloadError::ApexNotFound)
    );
}

#[test]
fn apex_partition_labels() {
    assert_eq!(apex_partition_label(0), "microdroid-apex-0");
    assert_eq!(apex_partition_label(9), "microdroid-apex-9");
    assert_eq!(apex_partition_label(10), "microdroid-apex-10");
    assert_eq!(apex_partition_label(1234), "microdroid-apex-1234");
}

#[test]
fn metadata_names_the_partitions() {
    let names = vec!["com.android.adbd".to_owned(), "com.android.os.statsd".to_owned()];
    let metadata = make_metadata("assets/vm_config.json", &names);
    assert_eq!(metadata.version, 1);
    assert_eq!(metadata.apexes.len(), 2);
    assert_eq!(metadata.apexes[0].name, "com.android.adbd");
    assert_eq!(metadata.apexes[0].partition_name, "microdroid-apex-0");
    assert_eq!(metadata.apexes[1].name, "com.android.os.statsd");
    assert_eq!(metadata.apexes[1].partition_name, "microdroid-apex-1");
    assert_eq!(metadata.apk.name, "apk");
    assert_eq!(metadata.apk.payload_partition_name, "microdroid-apk");
    assert_eq!(metadata.apk.idsig_partition_name, "microdroid-apk-idsig");
    assert_eq!(metadata.payload_config_path, "/mnt/apk/assets/vm_config.json");
}

#[test]
fn metadata_without_apexes() {
    let metadata = make_metadata("", &[]);
    assert!(metadata.apexes.is_empty());
    assert_eq!(metadata.payload_config_path, "/mnt/apk/");
}

#[test]
fn payload_disk_has_metadata_apexes_apk_and_idsig() {
    assert_eq!(
        make_payload_disk(2),
        vec![
            plan("payload-metadata", PartitionImage::Metadata, false),
            plan("microdroid-apex-0", PartitionImage::Apex(0), false),
            plan("microdroid-apex-1", PartitionImage::Apex(1), false),
            plan("microdroid-apk", PartitionImage::Apk, false),
            plan("microdroid-apk-idsig", PartitionImage::Idsig, false),
        ]
    );
    assert_eq!(
        make_payload_disk(0),
        vec![
            plan("payload-metadata", PartitionImage::Metadata, false),
            plan("microdroid-apk", PartitionImage::Apk, false),
            plan("microdroid-apk-idsig", PartitionImage::Idsig, false),
        ]
    );
    assert_eq!(make_payload_disk(12).len(), 15);
    assert_eq!(make_payload_disk(12)[12].label, "microdroid-apex-11");
}

#[test]
fn instance_image_is_the_only_writable_partition() {
    assert_eq!(
        add_microdroid_images(false),
        vec![plan("vm-instance", PartitionImage::Instance, true)]
    );
    assert_eq!(
        add_microdroid_images(true),
        vec![
            plan("bootconfig", PartitionImage::DebugBootconfig, false),
            plan("vm-instance", PartitionImage::Instance, true),
        ]
    );
}
