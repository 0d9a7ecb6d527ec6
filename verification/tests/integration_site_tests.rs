use unifi_exporter::unifi_integration::IntegrationResponse;
use unifi_exporter::unifi_integration::IntegrationSite;
use unifi_exporter::unifi_integration::to_sites;

#[test]
fn test_integration_site_to_site() {
    let int_site = IntegrationSite {
        id: "88f7af54-98f8-306a-a1c7-c9349722b1f6".to_string(),
        internal_reference: "default".to_string(),
        name: "Default Site".to_string(),
    };

    let site = int_site.to_site();
    assert_eq!(site._id, "88f7af54-98f8-306a-a1c7-c9349722b1f6");
    assert_eq!(site.name, "default");
    assert_eq!(site.desc, "Default Site");
    assert_eq!(site.attr_hidden_id, None);
    assert_eq!(site.attr_no_delete, None);
}

#[test]
fn test_to_sites_maps_every_record_in_order() {
    let records = vec![
        IntegrationSite {
            id: "one".to_string(),
            internal_reference: "default".to_string(),
            name: "Default Site".to_string(),
        },
        IntegrationSite {
            id: "two".to_string(),
            internal_reference: "branch".to_string(),
            name: "Branch Office".to_string(),
        },
    ];
    let sites = to_sites(&records);
    assert_eq!(sites.len(), 2);
    assert_eq!(sites[0]._id, "one");
    assert_eq!(sites[0].name, "default");
    assert_eq!(sites[0].desc, "Default Site");
    assert_eq!(sites[1]._id, "two");
    assert_eq!(sites[1].name, "branch");
    assert_eq!(sites[1].desc, "Branch Office");
}

#[test]
fn test_integration_response_carries_page_fields() {
    let page: IntegrationResponse<IntegrationSite> = IntegrationResponse {
        offset: 0,
        limit: 50,
        count: 2,
        total_count: 2,
        data: Vec::new(),
    };
    assert_eq!(page.offset, 0);
    assert_eq!(page.limit, 50);
    assert_eq!(page.count, 2);
    assert_eq!(page.total_count, 2);
    assert_eq!(page.data.len(), 0);
}
