pub mod drv8235;
pub mod pca9633;
pub mod ds3231;
pub mod opt4003;
pub mod adm1176;
pub mod max17205;
pub mod sdcard;
pub mod vl53l4cd;
